//! The decisions of the proof-of-work mining worker: what each turn of its loop
//! does, which nonce seals a block, and the time stamp of a seal.

use vstd::prelude::*;
use std::time::{Duration, SystemTime, SystemTimeError};

verus! {

/// Seconds that the worker waits while the node is still syncing.
pub const SYNC_WAIT_SECS: u64 = 5;

/// Nonces that one mining job tries.
pub const JOB_ITERATIONS: u64 = 10000;

/// The errors of the consensus engine that this library gives.
#[derive(Clone, Debug)]
pub enum ConsensusError {
    /// A failure in building or importing a block, with its message.
    ClientImport(String),
}

/// What one turn of the worker loop does.
#[derive(Clone, Copy, Debug, PartialEq, Eq, Structural)]
pub enum WorkerAction {
    /// Leave the loop.
    Stop,
    /// Wait this many seconds, then take the next turn.
    Wait { secs: u64 },
    /// Run a mining job of this many nonces, then take the next turn at once.
    Mine { iterations: u64 },
}

/// The action of one turn of the worker loop. `stop_sign` is the stop flag as
/// read (`None` where it could not be read); `major_syncing` asks whether the
/// node is still catching up with the chain, and is asked only where the flag
/// was read and is not set.
pub fn next_worker_action<S: Fn() -> bool>(stop_sign: Option<bool>, major_syncing: S) -> (a:
    WorkerAction)
    requires
        major_syncing.requires(()),
    ensures
        match stop_sign {
            Some(false) => exists|syncing: bool|
                #[trigger] major_syncing.ensures((), syncing) && a == if syncing {
                    WorkerAction::Wait { secs: SYNC_WAIT_SECS }
                } else {
                    WorkerAction::Mine { iterations: JOB_ITERATIONS }
                },
            _ => a == WorkerAction::Stop,
        },
{
    match stop_sign {
        Some(false) => {},
        _ => {
            return WorkerAction::Stop;
        },
    }
    let syncing = major_syncing();
    if syncing {
        WorkerAction::Wait { secs: SYNC_WAIT_SECS }
    } else {
        WorkerAction::Mine { iterations: JOB_ITERATIONS }
    }
}

/// Tries the nonces `0, 1, ..` below `iterations` in turn with `seals`, which
/// says whether the block sealed with a nonce meets its difficulty, and gives
/// the first nonce that does; `None` where none below `iterations` does.
pub fn find_nonce<F: Fn(u64) -> bool>(iterations: u64, seals: F) -> (r: Option<u64>)
    requires
        forall|i: u64| i < iterations ==> seals.requires((i,)),
    ensures
        match r {
            Some(n) => n < iterations && seals.ensures((n,), true) && forall|j: u64|
                j < n ==> #[trigger] seals.ensures((j,), false),
            None => forall|j: u64| j < iterations ==> #[trigger] seals.ensures((j,), false),
        },
{
    let mut i: u64 = 0;
    while i < iterations
        invariant
            i <= iterations,
            forall|k: u64| k < iterations ==> seals.requires((k,)),
            forall|j: u64| j < i ==> #[trigger] seals.ensures((j,), false),
        decreases iterations - i,
    {
        let ok = seals(i);
        if ok {
            return Some(i);
        }
        i = i + 1;
    }
    None
}

/// Declares `std::time::SystemTime` to Verus.
#[verifier::external_type_specification]
#[verifier::external_body]
pub struct ExSystemTime(SystemTime);

/// Declares `std::time::SystemTimeError` to Verus.
#[verifier::external_type_specification]
#[verifier::external_body]
pub struct ExSystemTimeError(SystemTimeError);

/// Calls `SystemTime::now`: the system clock's present time. Nothing is stated
/// of it: it depends on the clock.
#[verifier::external_body]
fn system_now() -> SystemTime {
    SystemTime::now()
}

/// Calls `SystemTime::duration_since` with the Unix epoch: the time elapsed
/// since the epoch, or an error where the time lies before it. Nothing is
/// stated of which: it depends on the time read from the clock.
#[verifier::external_body]
fn since_unix_epoch(t: &SystemTime) -> Result<Duration, SystemTimeError> {
    t.duration_since(std::time::UNIX_EPOCH)
}

/// Calls `Duration::as_millis`: the whole milliseconds of `d`. A duration is
/// opaque here, so nothing is stated of the number.
#[verifier::external_body]
fn duration_millis(d: &Duration) -> u128 {
    d.as_millis()
}

/// The `Debug` text of a clock error, through `format!`. Nothing is stated of
/// the text.
#[verifier::external_body]
fn time_error_text(e: &SystemTimeError) -> String {
    format!("{:?}", e)
}

/// The time stamp of a seal from the milliseconds since the Unix epoch: their
/// low 64 bits, as an `as u64` conversion gives.
pub fn millis_to_timestamp(millis: u128) -> (t: u64)
    ensures
        t == millis as u64,
{
    #[verifier::truncate]
    (millis as u64)
}

/// The present time in milliseconds since the Unix epoch (its low 64 bits, see
/// `millis_to_timestamp`), for a seal; an error where the clock stands before
/// the epoch. What the clock reads is not stated.
pub fn timestamp_now() -> (r: Result<u64, ConsensusError>) {
    let now = system_now();
    match since_unix_epoch(&now) {
        Ok(d) => Ok(millis_to_timestamp(duration_millis(&d))),
        Err(e) => Err(ConsensusError::ClientImport(time_error_text(&e))),
    }
}

} // verus!
