//! The proof-of-work difficulty of the next block.
//!
//! Every `adj` blocks (the adjustment period) the difficulty is recomputed from
//! how long the last stretch of sealed blocks took against the target block
//! time; in between, a block takes its parent's difficulty.

use vstd::prelude::*;
use crate::digest::{DigestLog, find_seal, last_seal};
use crate::wide::{Difficulty, max_value};

verus! {

/// What the difficulty computation reads of a header: its number and its digest.
#[derive(Clone, Debug)]
pub struct HeaderInfo {
    pub number: u64,
    pub logs: Vec<DigestLog>,
}

/// Whether a block of this number starts an adjustment period.
pub open spec fn spec_is_adjustment_block(number: u64, adj: u64) -> bool {
    number % adj == 0
}

/// Whether a block of this number starts an adjustment period (`adj` is the
/// length of the period).
pub fn is_adjustment_block(number: u64, adj: u64) -> (b: bool)
    requires
        adj > 0,
    ensures
        b == spec_is_adjustment_block(number, adj),
{
    number % adj == 0
}

/// The walk back through the ancestors stops before `ancestors[j]`: that header
/// starts an adjustment period, or carries no seal.
pub open spec fn stops_at(ancestors: Seq<HeaderInfo>, adj: u64, j: int) -> bool {
    ancestors[j].number % adj == 0 || last_seal(ancestors[j].logs@) is None
}

/// The walk that stands at `ancestors[i]` reaches the header where it stops
/// without running past the end of `ancestors`.
pub open spec fn walk_covered(ancestors: Seq<HeaderInfo>, adj: u64, i: int) -> bool
    decreases ancestors.len() - i,
{
    if i + 1 >= ancestors.len() {
        false
    } else {
        stops_at(ancestors, adj, i + 1) || walk_covered(ancestors, adj, i + 1)
    }
}

/// The index of the last header of the walk that stands at `ancestors[i]`: the
/// earliest header of the stretch of sealed blocks since the last adjustment.
pub open spec fn walk_end(ancestors: Seq<HeaderInfo>, adj: u64, i: int) -> int
    decreases ancestors.len() - i,
{
    if i + 1 >= ancestors.len() {
        i
    } else if stops_at(ancestors, adj, i + 1) {
        i
    } else {
        walk_end(ancestors, adj, i + 1)
    }
}

/// The number and the seal time of the earliest header of the walk from the
/// parent (`ancestors[0]`).
pub open spec fn window_start(ancestors: Seq<HeaderInfo>, adj: u64) -> (u64, u64) {
    let e = walk_end(ancestors, adj, 0);
    (ancestors[e].number, last_seal(ancestors[e].logs@).unwrap().timestamp)
}

/// Along the walk from the parent, down to the header where it stops, each
/// header's number is one more than that of the next.
pub open spec fn walk_consecutive(ancestors: Seq<HeaderInfo>, adj: u64) -> bool {
    forall|k: int|
        0 <= k <= walk_end(ancestors, adj, 0) ==> #[trigger] ancestors[k + 1].number + 1
            == ancestors[k].number
}

/// The adjusted difficulty: the current difficulty over the expected time of the
/// stretch, times the time it took (integer division first).
pub open spec fn adjusted(current: int, expected_gap: int, time_gap: int) -> int {
    (current / expected_gap) * time_gap
}

/// The expected time in milliseconds of `block_gap` blocks at
/// `target_block_time` seconds each.
pub open spec fn expected_gap(target_block_time: u64, block_gap: int) -> int {
    target_block_time * 1000 * block_gap
}

/// Where the walk for an adjustment can be made: there is a parent, it is
/// sealed, and the walk stays inside `ancestors`.
pub open spec fn window_known(ancestors: Seq<HeaderInfo>, adj: u64) -> bool {
    &&& ancestors.len() > 0
    &&& last_seal(ancestors[0].logs@) is Some
    &&& walk_covered(ancestors, adj, 0)
}

/// The adjustment of a block of `number` sealed at `timestamp` can be computed
/// without a panic: the walk is known, and no step of the arithmetic underflows,
/// overflows or divides by zero.
pub open spec fn adjustment_computable(
    number: u64,
    timestamp: u64,
    adj: u64,
    target_block_time: u64,
    ancestors: Seq<HeaderInfo>,
) -> bool {
    let (last_num, last_time) = window_start(ancestors, adj);
    let current = last_seal(ancestors[0].logs@).unwrap().difficulty;
    let gap = expected_gap(target_block_time, number - last_num);
    &&& window_known(ancestors, adj)
    &&& walk_consecutive(ancestors, adj)
    &&& last_num <= number
    &&& 0 < gap <= u64::MAX
    &&& last_time <= timestamp
    &&& adjusted(current.value(), gap, timestamp - last_time) <= max_value()
}

/// The difficulty of a block of `number` sealed at `timestamp`.
pub open spec fn difficulty(
    number: u64,
    timestamp: u64,
    genesis_difficulty: Difficulty,
    adj: u64,
    target_block_time: Option<u64>,
    ancestors: Seq<HeaderInfo>,
) -> int {
    if !spec_is_adjustment_block(number, adj) {
        match last_seal(ancestors[0].logs@) {
            Some(seal) => seal.difficulty.value(),
            None => genesis_difficulty.value(),
        }
    } else {
        let (last_num, last_time) = window_start(ancestors, adj);
        let current = last_seal(ancestors[0].logs@).unwrap().difficulty;
        adjusted(
            current.value(),
            expected_gap(target_block_time.unwrap(), number - last_num),
            timestamp - last_time,
        )
    }
}

/// The walk never ends before the header where it stands.
proof fn lemma_walk_end_from(ancestors: Seq<HeaderInfo>, adj: u64, i: int)
    ensures
        walk_end(ancestors, adj, i) >= i,
    decreases ancestors.len() - i,
{
    if i + 1 < ancestors.len() && !stops_at(ancestors, adj, i + 1) {
        lemma_walk_end_from(ancestors, adj, i + 1);
    }
}

/// Walks back from the parent (`ancestors[0]`) through the sealed headers of
/// the running adjustment period, and gives the number and the seal time of the
/// earliest of them; `None` where the parent has no seal, the walk would run
/// past the end of `ancestors`, or two headers along it are not numbered one
/// after the other.
pub fn adjustment_window(ancestors: &Vec<HeaderInfo>, adj: u64) -> (r: Option<(u64, u64)>)
    requires
        adj > 0,
    ensures
        r is Some <==> window_known(ancestors@, adj) && walk_consecutive(ancestors@, adj),
        r is Some ==> r == Some(window_start(ancestors@, adj)),
{
    if ancestors.len() == 0 {
        return None;
    }
    let first = find_seal(&ancestors[0].logs);
    let mut seal = match first {
        Some(s) => s,
        None => {
            return None;
        },
    };
    let mut i: usize = 0;
    loop
        invariant
            i < ancestors.len(),
            adj > 0,
            last_seal(ancestors@[i as int].logs@) == Some(seal),
            window_known(ancestors@, adj) <==> walk_covered(ancestors@, adj, i as int),
            walk_end(ancestors@, adj, 0) == walk_end(ancestors@, adj, i as int),
            last_seal(ancestors@[0].logs@) is Some,
            ancestors.len() > 0,
            forall|k: int|
                0 <= k < i ==> #[trigger] ancestors@[k + 1].number + 1 == ancestors@[k].number,
        decreases ancestors.len() - i,
    {
        if i + 1 >= ancestors.len() {
            return None;
        }
        let prev = &ancestors[i + 1];
        if ancestors[i].number == 0 || prev.number != ancestors[i].number - 1 {
            proof {
                lemma_walk_end_from(ancestors@, adj, i as int);
            }
            return None;
        }
        let prev_seal = find_seal(&prev.logs);
        if prev.number % adj == 0 {
            return Some((ancestors[i].number, seal.timestamp));
        }
        match prev_seal {
            Some(s) => {
                i = i + 1;
                seal = s;
            },
            None => {
                return Some((ancestors[i].number, seal.timestamp));
            },
        }
    }
}

/// The walk for an adjustment would read the parent of the last header in
/// `ancestors`: the parent (`ancestors[0]`) is sealed and the walk from it
/// runs past the end of `ancestors` without stopping.
pub open spec fn walk_needs_more(ancestors: Seq<HeaderInfo>, adj: u64) -> bool {
    &&& ancestors.len() > 0
    &&& last_seal(ancestors[0].logs@) is Some
    &&& !walk_covered(ancestors, adj, 0)
}

/// Whether the walk for an adjustment needs the parent of the last header in
/// `ancestors` (which run back from the block's parent): the parent is sealed,
/// and no header after it in `ancestors` stops the walk. Reading ancestors
/// until this is false gives `adjustment_window` all it reads.
pub fn walk_needs_parent(ancestors: &Vec<HeaderInfo>, adj: u64) -> (more: bool)
    requires
        adj > 0,
    ensures
        more == walk_needs_more(ancestors@, adj),
{
    if ancestors.len() == 0 {
        return false;
    }
    if find_seal(&ancestors[0].logs).is_none() {
        return false;
    }
    let mut i: usize = 0;
    while i + 1 < ancestors.len()
        invariant
            i < ancestors.len(),
            adj > 0,
            last_seal(ancestors@[0].logs@) is Some,
            walk_covered(ancestors@, adj, 0) <==> walk_covered(ancestors@, adj, i as int),
        decreases ancestors.len() - i,
    {
        let next = &ancestors[i + 1];
        if next.number % adj == 0 || find_seal(&next.logs).is_none() {
            return false;
        }
        i = i + 1;
    }
    true
}

/// The difficulty of the block of `number`, sealed at `timestamp` (milliseconds
/// since the Unix epoch), whose ancestors run back from its parent
/// (`ancestors[0]`). Off an adjustment block it is the difficulty of the
/// parent's seal, or `genesis_difficulty` where the parent has none. On an
/// adjustment block, the parent's difficulty is scaled by the time that the
/// sealed blocks since the last adjustment took against `target_block_time`
/// (seconds per block), which is read only there.
pub fn calc_difficulty(
    number: u64,
    timestamp: u64,
    genesis_difficulty: Difficulty,
    adj: u64,
    target_block_time: Option<u64>,
    ancestors: &Vec<HeaderInfo>,
) -> (d: Difficulty)
    requires
        adj > 0,
        ancestors.len() > 0,
        spec_is_adjustment_block(number, adj) ==> target_block_time is Some
            && adjustment_computable(
            number,
            timestamp,
            adj,
            target_block_time.unwrap(),
            ancestors@,
        ),
    ensures
        d.value() == difficulty(
            number,
            timestamp,
            genesis_difficulty,
            adj,
            target_block_time,
            ancestors@,
        ),
{
    let parent_seal = find_seal(&ancestors[0].logs);
    if number % adj != 0 {
        return match parent_seal {
            Some(seal) => seal.difficulty,
            None => genesis_difficulty,
        };
    }
    let current = parent_seal.unwrap().difficulty;
    let (last_num, last_time) = adjustment_window(ancestors, adj).unwrap();
    let target = target_block_time.unwrap();
    let block_gap = number - last_num;
    assert(block_gap >= 1 && target * 1000 <= target * 1000 * block_gap) by (nonlinear_arith)
        requires
            0 < target * 1000 * block_gap,
            block_gap >= 0,
            target >= 0,
    ;
    let expected = target * 1000 * block_gap;
    let time_gap = timestamp - last_time;
    let d = current.div_u64(expected).mul_u64(time_gap);
    d
}

/// Off an adjustment block the difficulty is the parent's (or the genesis
/// difficulty), whatever the target block time and the earlier ancestors.
pub proof fn lemma_off_adjustment_keeps_parent(
    number: u64,
    timestamp: u64,
    genesis_difficulty: Difficulty,
    adj: u64,
    t1: Option<u64>,
    t2: Option<u64>,
    a1: Seq<HeaderInfo>,
    a2: Seq<HeaderInfo>,
)
    requires
        adj > 0,
        !spec_is_adjustment_block(number, adj),
        a1.len() > 0,
        a2.len() > 0,
        a1[0].logs@ == a2[0].logs@,
    ensures
        difficulty(number, timestamp, genesis_difficulty, adj, t1, a1) == difficulty(
            number,
            timestamp,
            genesis_difficulty,
            adj,
            t2,
            a2,
        ),
{
}

/// The later the blocks of a stretch came, the higher the adjusted difficulty:
/// it never falls as the time gap grows.
pub proof fn lemma_adjusted_monotone_in_time(current: nat, gap: int, t1: nat, t2: nat)
    requires
        gap > 0,
        t1 <= t2,
    ensures
        adjusted(current as int, gap, t1 as int) <= adjusted(current as int, gap, t2 as int),
{
    let q = current as int / gap;
    assert(q >= 0) by (nonlinear_arith)
        requires
            gap > 0,
            current >= 0,
            q == current as int / gap,
    ;
    assert(q * t1 <= q * t2) by (nonlinear_arith)
        requires
            q >= 0,
            t1 <= t2,
    ;
}

/// Blocks that came exactly on target keep the difficulty, up to the rounding of
/// the division: it drops by less than the expected gap and never rises.
pub proof fn lemma_on_target_keeps_difficulty(current: nat, gap: int)
    requires
        gap > 0,
    ensures
        current - gap < adjusted(current as int, gap, gap) <= current,
{
    let q = current as int / gap;
    let r = current as int % gap;
    assert(q * gap + r == current && 0 <= r < gap) by (nonlinear_arith)
        requires
            gap > 0,
            q == current as int / gap,
            r == current as int % gap,
    ;
}

} // verus!
