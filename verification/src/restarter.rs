//! What a node does when a block is imported while a scale-out is committed:
//! restart to serve its shard in the new layout, or stop when its coinbase no
//! longer belongs to that shard.

use vstd::prelude::*;
use crate::digest::{DigestLog, ScaleOut, ScaleOutPhase, find_scale_out_phase, last_scale_out_phase};
use crate::shard_info::shard_decision;

verus! {

/// The signal that the node sends to its command line.
#[derive(Clone, Copy, Debug, PartialEq, Eq, Structural)]
pub enum RestartSignal {
    Stop,
    Restart,
}

/// The shard that the node is to serve after the scale-out: the scale-out
/// target where there is one, else its present shard.
pub open spec fn target_shard(shard_num: u16, scale_out: Option<ScaleOut>) -> u16 {
    match scale_out {
        Some(so) => so.shard_num,
        None => shard_num,
    }
}

/// The shard that the node is to serve after the scale-out: the scale-out
/// target where there is one, else its present shard.
pub fn target_shard_num(shard_num: u16, scale_out: Option<ScaleOut>) -> (t: u16)
    ensures
        t == target_shard(shard_num, scale_out),
{
    match scale_out {
        Some(so) => so.shard_num,
        None => shard_num,
    }
}

/// The signal for an imported header whose digest is `logs`. Only where the
/// last scale-out phase in `logs` is a commit is there one: the coinbase's shard
/// number for the committed shard count, which `coinbase_shard_num` computes
/// (and only then), is compared with `target`; equal, the node restarts, else it
/// stops.
pub fn restart_signal<F: Fn(u16) -> u16>(
    target: u16,
    logs: &Vec<DigestLog>,
    coinbase_shard_num: F,
) -> (r: Option<RestartSignal>)
    requires
        forall|count: u16| coinbase_shard_num.requires((count,)),
    ensures
        match last_scale_out_phase(logs@) {
            Some(ScaleOutPhase::Commiting { shard_count }) => exists|n: u16|
                #[trigger] coinbase_shard_num.ensures((shard_count,), n) && r == Some(
                    if n == target {
                        RestartSignal::Restart
                    } else {
                        RestartSignal::Stop
                    },
                ),
            _ => r is None,
        },
{
    let phase = find_scale_out_phase(logs);
    if let Some(ScaleOutPhase::Commiting { shard_count }) = phase {
        let n = coinbase_shard_num(shard_count);
        if target != n {
            Some(RestartSignal::Stop)
        } else {
            Some(RestartSignal::Restart)
        }
    } else {
        None
    }
}

/// The shard that the restarter watches for is always the shard that the node
/// was asked to serve, whenever the shard decision accepted the request.
pub proof fn lemma_target_is_requested_shard(
    arg: u16,
    shard_info: Option<(u16, u16)>,
    phase: Option<ScaleOutPhase>,
)
    requires
        phase matches Some(ScaleOutPhase::Commiting { .. }) || shard_info is Some,
        shard_decision(arg, shard_info, phase) is Ok,
    ensures
        ({
            let (num, _count, scale_out) = shard_decision(arg, shard_info, phase)->Ok_0;
            target_shard(num, scale_out) == arg
        }),
{
}

} // verus!
