//! Which shard a node serves, decided from the best block header and the shard
//! number given on the command line.

use vstd::prelude::*;
use vstd::string::*;
use crate::digest::{
    DigestLog, ScaleOut, ScaleOutPhase, find_scale_out_phase, find_sharding_info,
    last_scale_out_phase, last_sharding_info,
};

verus! {

/// Why the shard number given on the command line is refused, or why the
/// shard information could not be read.
#[derive(Clone, Debug)]
pub enum ShardInfoError {
    /// The chain is committing a scale-out (not at genesis) and the shard number
    /// is neither the chain's shard nor the shard that it splits into.
    NonGenesisCommit,
    /// The chain is at genesis and the shard number exceeds the genesis shard count.
    GenesisCommit,
    /// The shard number is neither the chain's shard nor its scale-out shard.
    InvalidShardNum,
    /// Reading the genesis shard count failed, with this message.
    Client(String),
}

impl ShardInfoError {
    /// The message that the node reports for this error.
    pub fn message(&self) -> (s: String)
        ensures
            s@ == match self {
                ShardInfoError::NonGenesisCommit =>
                    "Invalid shard num on non-genesis block scale out phase commiting"@,
                ShardInfoError::GenesisCommit =>
                    "Invalid shard num on genesis block scale out phase commiting"@,
                ShardInfoError::InvalidShardNum => "Invalid shard num"@,
                ShardInfoError::Client(m) => m@,
            },
    {
        match self {
            ShardInfoError::NonGenesisCommit => String::from_str(
                "Invalid shard num on non-genesis block scale out phase commiting",
            ),
            ShardInfoError::GenesisCommit => String::from_str(
                "Invalid shard num on genesis block scale out phase commiting",
            ),
            ShardInfoError::InvalidShardNum => String::from_str("Invalid shard num"),
            ShardInfoError::Client(m) => m.clone(),
        }
    }
}

/// The error values of a shard decision, without the message of a client error.
pub enum ShardRefusal {
    NonGenesisCommit,
    GenesisCommit,
    InvalidShardNum,
}

/// The shard decision: from the requested shard number `arg`, the chain's own
/// sharding record (`None` at genesis) and the scale-out phase in force, the
/// triple (shard number, shard count, scale-out target), or the refusal.
pub open spec fn shard_decision(
    arg: u16,
    shard_info: Option<(u16, u16)>,
    phase: Option<ScaleOutPhase>,
) -> Result<(u16, u16, Option<ScaleOut>), ShardRefusal> {
    match phase {
        Some(ScaleOutPhase::Commiting { shard_count }) => match shard_info {
            Some((num, count)) => if arg == num || arg == num + count {
                Ok((arg, shard_count, None))
            } else {
                Err(ShardRefusal::NonGenesisCommit)
            },
            None => if arg > shard_count {
                Err(ShardRefusal::GenesisCommit)
            } else {
                Ok((arg, shard_count, None))
            },
        },
        _ => {
            let (num, count) = shard_info.unwrap();
            if arg == num {
                Ok((num, count, None))
            } else if arg == num + count {
                Ok((num, count, Some(ScaleOut { shard_num: arg })))
            } else {
                Err(ShardRefusal::InvalidShardNum)
            }
        },
    }
}

/// `r` is what `shard_decision` gives, an error of the one kind as the other.
pub open spec fn matches_decision(
    r: Result<(u16, u16, Option<ScaleOut>), ShardInfoError>,
    d: Result<(u16, u16, Option<ScaleOut>), ShardRefusal>,
) -> bool {
    match d {
        Ok(v) => r == Ok::<(u16, u16, Option<ScaleOut>), ShardInfoError>(v),
        Err(ShardRefusal::NonGenesisCommit) => r matches Err(ShardInfoError::NonGenesisCommit),
        Err(ShardRefusal::GenesisCommit) => r matches Err(ShardInfoError::GenesisCommit),
        Err(ShardRefusal::InvalidShardNum) => r matches Err(ShardInfoError::InvalidShardNum),
    }
}

/// No shard-number sum that the decision computes overflows a `u16`. Only a
/// non-genesis chain whose shard differs from `arg` needs the sum.
pub open spec fn decision_in_range(arg: u16, shard_info: Option<(u16, u16)>) -> bool {
    match shard_info {
        Some((num, count)) => arg != num ==> num + count <= u16::MAX,
        None => true,
    }
}

/// While a scale-out commit is recorded, a request is accepted exactly when it
/// names the chain's shard or its sibling (shard number plus shard count), or,
/// at genesis, any shard up to the committed count; an accepted request is
/// served at once under the committed shard count, with no scale-out pending.
pub open spec fn committing_rule(
    arg: u16,
    shard_info: Option<(u16, u16)>,
    phase: Option<ScaleOutPhase>,
    r: Result<(u16, u16, Option<ScaleOut>), ShardInfoError>,
) -> bool {
    match phase {
        Some(ScaleOutPhase::Commiting { shard_count }) => {
            &&& r is Ok <==> match shard_info {
                Some((num, count)) => arg == num || arg as int == num as int + count as int,
                None => arg <= shard_count,
            }
            &&& r is Ok ==> r->Ok_0 == (arg, shard_count, None::<ScaleOut>)
        },
        _ => true,
    }
}

/// Outside a commit (no phase recorded, or a started, native-ready or ready
/// scale-out), a request for the chain's shard is served as it is, a request
/// for its sibling is served with the sibling as the scale-out target, and
/// every other request is refused.
pub open spec fn sibling_rule(
    arg: u16,
    shard_info: Option<(u16, u16)>,
    phase: Option<ScaleOutPhase>,
    r: Result<(u16, u16, Option<ScaleOut>), ShardInfoError>,
) -> bool {
    match (phase, shard_info) {
        (Some(ScaleOutPhase::Commiting { .. }), _) => true,
        (_, Some((num, count))) => {
            &&& arg == num ==> r is Ok && r->Ok_0 == (num, count, None::<ScaleOut>)
            &&& arg != num && arg as int == num as int + count as int ==> r is Ok && r->Ok_0 == (
                num,
                count,
                Some(ScaleOut { shard_num: arg }),
            )
            &&& arg != num && arg as int != num as int + count as int ==> r matches Err(
                ShardInfoError::InvalidShardNum,
            )
        },
        (_, None) => true,
    }
}

/// Decides the shard from the requested shard number, the chain's sharding
/// record and the scale-out phase in force.
pub fn decide_shard_info(
    arg: u16,
    shard_info: Option<(u16, u16)>,
    phase: Option<ScaleOutPhase>,
) -> (r: Result<(u16, u16, Option<ScaleOut>), ShardInfoError>)
    requires
        decision_in_range(arg, shard_info),
        phase matches Some(ScaleOutPhase::Commiting { .. }) || shard_info is Some,
    ensures
        matches_decision(r, shard_decision(arg, shard_info, phase)),
        committing_rule(arg, shard_info, phase, r),
        sibling_rule(arg, shard_info, phase, r),
{
    if let Some(ScaleOutPhase::Commiting { shard_count }) = phase {
        match shard_info {
            Some((num, count)) => {
                if arg == num || arg == num + count {
                    Ok((arg, shard_count, None))
                } else {
                    Err(ShardInfoError::NonGenesisCommit)
                }
            },
            None => {
                if arg > shard_count {
                    Err(ShardInfoError::GenesisCommit)
                } else {
                    Ok((arg, shard_count, None))
                }
            },
        }
    } else {
        let (num, count) = shard_info.unwrap();
        if arg == num {
            Ok((num, count, None))
        } else if arg == num + count {
            Ok((num, count, Some(ScaleOut { shard_num: arg })))
        } else {
            Err(ShardInfoError::InvalidShardNum)
        }
    }
}

/// Reads the shard information from the digest of the best block header and
/// checks the requested shard number `arg` against it.
///
/// The sharding record is the last one in `logs`. Where there is one, the
/// scale-out phase in force is the last one in `logs`; where there is none, the
/// header is the genesis header, and the chain counts as committing a scale-out
/// to the genesis shard count, which `genesis_shard_count` reads (and only then).
pub fn get_shard_info<G: Fn() -> Result<u16, String>>(
    logs: &Vec<DigestLog>,
    arg: u16,
    genesis_shard_count: G,
) -> (r: Result<(u16, u16, Option<ScaleOut>), ShardInfoError>)
    requires
        decision_in_range(arg, last_sharding_info(logs@)),
        last_sharding_info(logs@) is None ==> genesis_shard_count.requires(()),
    ensures
        last_sharding_info(logs@) is Some ==> matches_decision(
            r,
            shard_decision(arg, last_sharding_info(logs@), last_scale_out_phase(logs@)),
        ),
        last_sharding_info(logs@) is None ==> exists|g: Result<u16, String>|
            #[trigger] genesis_shard_count.ensures((), g) && match g {
                Ok(count) => matches_decision(
                    r,
                    shard_decision(arg, None, Some(ScaleOutPhase::Commiting { shard_count: count })),
                ),
                Err(e) => r == Err::<(u16, u16, Option<ScaleOut>), ShardInfoError>(
                    ShardInfoError::Client(e),
                ),
            },
{
    let shard_info = find_sharding_info(logs);
    let phase = match shard_info {
        Some(_) => find_scale_out_phase(logs),
        None => {
            let g = genesis_shard_count();
            match g {
                Ok(count) => Some(ScaleOutPhase::Commiting { shard_count: count }),
                Err(e) => {
                    return Err(ShardInfoError::Client(e));
                },
            }
        },
    };
    decide_shard_info(arg, shard_info, phase)
}

/// Whatever shard an accepted request ends on, the node serves the requested
/// shard: at once, or as its scale-out target once the shard count doubles.
pub proof fn lemma_decision_serves_requested_shard(
    arg: u16,
    shard_info: Option<(u16, u16)>,
    phase: Option<ScaleOutPhase>,
)
    requires
        phase matches Some(ScaleOutPhase::Commiting { .. }) || shard_info is Some,
        shard_decision(arg, shard_info, phase) is Ok,
    ensures
        ({
            let (num, _count, scale_out) = shard_decision(arg, shard_info, phase)->Ok_0;
            num == arg || scale_out == Some(ScaleOut { shard_num: arg })
        }),
{
}

/// A scale-out target is the sibling of the chain's shard: the shard number
/// plus the shard count. While a scale-out is being committed there is none.
pub proof fn lemma_scale_out_target_is_sibling(
    arg: u16,
    shard_info: Option<(u16, u16)>,
    phase: Option<ScaleOutPhase>,
)
    requires
        phase matches Some(ScaleOutPhase::Commiting { .. }) || shard_info is Some,
        shard_decision(arg, shard_info, phase) is Ok,
    ensures
        ({
            let (num, count, scale_out) = shard_decision(arg, shard_info, phase)->Ok_0;
            &&& scale_out matches Some(so) ==> so.shard_num == num + count
                && shard_info == Some((num, count))
            &&& phase matches Some(ScaleOutPhase::Commiting { .. }) ==> scale_out is None
        }),
{
}

/// At genesis every shard number up to the genesis shard count is accepted, and
/// then the node serves it at once with that shard count.
pub proof fn lemma_genesis_accepts_up_to_count(arg: u16, count: u16)
    requires
        arg <= count,
    ensures
        shard_decision(arg, None, Some(ScaleOutPhase::Commiting { shard_count: count }))
            == Ok::<(u16, u16, Option<ScaleOut>), ShardRefusal>((arg, count, None)),
{
}

/// While a scale-out commit is recorded on a non-genesis header with sharding
/// record `(num, count)`, the decision accepts a requested shard exactly when it
/// is `num` or `num + count`, and then serves it under the committed count.
pub proof fn lemma_commit_accepts_exactly_shard_or_sibling(
    arg: u16,
    num: u16,
    count: u16,
    shard_count: u16,
)
    ensures
        (shard_decision(arg, Some((num, count)), Some(ScaleOutPhase::Commiting { shard_count })) is Ok)
            <==> (arg == num || arg as int == num as int + count as int),
        shard_decision(arg, Some((num, count)), Some(ScaleOutPhase::Commiting { shard_count })) is Ok
            ==> shard_decision(arg, Some((num, count)), Some(ScaleOutPhase::Commiting { shard_count }))->Ok_0
            == (arg, shard_count, None::<ScaleOut>),
{
}

/// Outside a commit, whatever the phase (none, started, native-ready or
/// ready), the chain's own shard is served as it is, its sibling `num + count`
/// is served with the sibling as the scale-out target, and any other request
/// is refused.
pub proof fn lemma_outside_commit_serves_shard_or_sibling(
    arg: u16,
    num: u16,
    count: u16,
    phase: Option<ScaleOutPhase>,
)
    requires
        !(phase matches Some(ScaleOutPhase::Commiting { .. })),
    ensures
        arg == num ==> shard_decision(arg, Some((num, count)), phase)
            == Ok::<(u16, u16, Option<ScaleOut>), ShardRefusal>((num, count, None)),
        arg != num && arg as int == num as int + count as int ==> shard_decision(
            arg,
            Some((num, count)),
            phase,
        ) == Ok::<(u16, u16, Option<ScaleOut>), ShardRefusal>(
            (num, count, Some(ScaleOut { shard_num: arg })),
        ),
        arg != num && arg as int != num as int + count as int ==> shard_decision(
            arg,
            Some((num, count)),
            phase,
        ) matches Err(ShardRefusal::InvalidShardNum),
{
}

} // verus!
