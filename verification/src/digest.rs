//! The parts of a block header's digest that the node's logic reads.
//!
//! A header carries a list of digest items. Each item is at most one of: a
//! sharding record (this chain's shard number and the shard count), a record of
//! the scale-out phase, or a proof-of-work seal. The logic always takes the
//! record of a kind that stands last in the list.

use vstd::prelude::*;
use crate::wide::Difficulty;

verus! {

/// The shard that a node moves to once the shard count doubles.
#[derive(Clone, Copy, Debug, PartialEq, Eq, Structural)]
pub struct ScaleOut {
    pub shard_num: u16,
}

/// The phase of a scale-out (the doubling of the shard count), as recorded in a
/// header. `observe_util` is the block number up to which a phase is observed.
#[derive(Clone, Copy, Debug, PartialEq, Eq, Structural)]
pub enum ScaleOutPhase {
    Started { observe_util: u64, shard_num: u16 },
    NativeReady { observe_util: u64, shard_num: u16 },
    Ready { observe_util: u64, shard_num: u16 },
    Commiting { shard_count: u16 },
}

/// What the logic reads of a proof-of-work seal.
#[derive(Clone, Copy, Debug, PartialEq, Eq, Structural)]
pub struct SealInfo {
    pub difficulty: Difficulty,
    /// Milliseconds since the Unix epoch.
    pub timestamp: u64,
}

/// One digest item of a header.
#[derive(Clone, Copy, Debug, PartialEq, Eq, Structural)]
pub enum DigestLog {
    ShardInfo { shard_num: u16, shard_count: u16 },
    ScaleOutPhase(ScaleOutPhase),
    Seal(SealInfo),
    Other,
}

/// The last sharding record of `logs`, as `(shard_num, shard_count)`.
pub open spec fn last_sharding_info(logs: Seq<DigestLog>) -> Option<(u16, u16)>
    decreases logs.len(),
{
    if logs.len() == 0 {
        None
    } else {
        match logs.last() {
            DigestLog::ShardInfo { shard_num, shard_count } => Some((shard_num, shard_count)),
            _ => last_sharding_info(logs.drop_last()),
        }
    }
}

/// The last scale-out phase recorded in `logs`.
pub open spec fn last_scale_out_phase(logs: Seq<DigestLog>) -> Option<ScaleOutPhase>
    decreases logs.len(),
{
    if logs.len() == 0 {
        None
    } else {
        match logs.last() {
            DigestLog::ScaleOutPhase(phase) => Some(phase),
            _ => last_scale_out_phase(logs.drop_last()),
        }
    }
}

/// The last seal in `logs`.
pub open spec fn last_seal(logs: Seq<DigestLog>) -> Option<SealInfo>
    decreases logs.len(),
{
    if logs.len() == 0 {
        None
    } else {
        match logs.last() {
            DigestLog::Seal(seal) => Some(seal),
            _ => last_seal(logs.drop_last()),
        }
    }
}

/// Finds the last sharding record of `logs`.
pub fn find_sharding_info(logs: &Vec<DigestLog>) -> (r: Option<(u16, u16)>)
    ensures
        r == last_sharding_info(logs@),
{
    let mut i = logs.len();
    assert(logs@.take(i as int) =~= logs@);
    while i > 0
        invariant
            i <= logs.len(),
            last_sharding_info(logs@) == last_sharding_info(logs@.take(i as int)),
        decreases i,
    {
        assert(logs@.take(i as int).last() == logs@[i - 1]);
        if let DigestLog::ShardInfo { shard_num, shard_count } = &logs[i - 1] {
            return Some((*shard_num, *shard_count));
        }
        assert(logs@.take(i as int).drop_last() =~= logs@.take(i - 1));
        i = i - 1;
    }
    assert(logs@.take(0) =~= Seq::<DigestLog>::empty());
    None
}

/// Finds the last scale-out phase recorded in `logs`.
pub fn find_scale_out_phase(logs: &Vec<DigestLog>) -> (r: Option<ScaleOutPhase>)
    ensures
        r == last_scale_out_phase(logs@),
{
    let mut i = logs.len();
    assert(logs@.take(i as int) =~= logs@);
    while i > 0
        invariant
            i <= logs.len(),
            last_scale_out_phase(logs@) == last_scale_out_phase(logs@.take(i as int)),
        decreases i,
    {
        assert(logs@.take(i as int).last() == logs@[i - 1]);
        if let DigestLog::ScaleOutPhase(phase) = &logs[i - 1] {
            return Some(*phase);
        }
        assert(logs@.take(i as int).drop_last() =~= logs@.take(i - 1));
        i = i - 1;
    }
    assert(logs@.take(0) =~= Seq::<DigestLog>::empty());
    None
}

/// Finds the last seal in `logs`.
pub fn find_seal(logs: &Vec<DigestLog>) -> (r: Option<SealInfo>)
    ensures
        r == last_seal(logs@),
{
    let mut i = logs.len();
    assert(logs@.take(i as int) =~= logs@);
    while i > 0
        invariant
            i <= logs.len(),
            last_seal(logs@) == last_seal(logs@.take(i as int)),
        decreases i,
    {
        assert(logs@.take(i as int).last() == logs@[i - 1]);
        if let DigestLog::Seal(seal) = &logs[i - 1] {
            return Some(*seal);
        }
        assert(logs@.take(i as int).drop_last() =~= logs@.take(i - 1));
        i = i - 1;
    }
    assert(logs@.take(0) =~= Seq::<DigestLog>::empty());
    None
}

} // verus!
