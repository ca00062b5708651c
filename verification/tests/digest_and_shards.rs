use std::cell::Cell;

use yeechain::decimal::to_decimal;
use yeechain::digest::{
    find_scale_out_phase, find_seal, find_sharding_info, DigestLog, ScaleOut, ScaleOutPhase,
    SealInfo,
};
use yeechain::restarter::{restart_signal, target_shard_num, RestartSignal};
use yeechain::shard_info::{decide_shard_info, get_shard_info, ShardInfoError};
use yeechain::wide::Difficulty;

#[test]
fn decimal_matches_format() {
    for n in [0u64, 1, 9, 10, 11, 99, 100, 1234, 65535, u64::MAX] {
        assert_eq!(to_decimal(n), format!("{}", n));
    }
    assert_eq!(to_decimal(0), "0");
    assert_eq!(to_decimal(42), "42");
}

#[test]
fn decimal_distinct_numbers_distinct_texts() {
    assert_ne!(to_decimal(1), to_decimal(10));
    assert_ne!(to_decimal(12), to_decimal(21));
}

fn sample_logs() -> Vec<DigestLog> {
    vec![
        DigestLog::ShardInfo { shard_num: 1, shard_count: 4 },
        DigestLog::Seal(SealInfo { difficulty: Difficulty::from_u128(7), timestamp: 100 }),
        DigestLog::ScaleOutPhase(ScaleOutPhase::Started { observe_util: 5, shard_num: 1 }),
        DigestLog::Other,
        DigestLog::ShardInfo { shard_num: 2, shard_count: 4 },
        DigestLog::ScaleOutPhase(ScaleOutPhase::Commiting { shard_count: 8 }),
        DigestLog::Seal(SealInfo { difficulty: Difficulty::from_u128(9), timestamp: 200 }),
        DigestLog::Other,
    ]
}

#[test]
fn finders_take_the_last_record() {
    let logs = sample_logs();
    assert_eq!(find_sharding_info(&logs), Some((2, 4)));
    assert_eq!(
        find_scale_out_phase(&logs),
        Some(ScaleOutPhase::Commiting { shard_count: 8 })
    );
    assert_eq!(find_seal(&logs), Some(SealInfo { difficulty: Difficulty::from_u128(9), timestamp: 200 }));
}

#[test]
fn finders_on_empty_and_unrelated_logs() {
    let empty: Vec<DigestLog> = vec![];
    assert_eq!(find_sharding_info(&empty), None);
    assert_eq!(find_scale_out_phase(&empty), None);
    assert_eq!(find_seal(&empty), None);
    let other = vec![DigestLog::Other, DigestLog::Other];
    assert_eq!(find_sharding_info(&other), None);
    assert_eq!(find_seal(&other), None);
}

#[test]
fn normal_phase_same_shard() {
    let r = decide_shard_info(1, Some((1, 4)), None).unwrap();
    assert_eq!(r, (1, 4, None));
}

#[test]
fn normal_phase_scale_out_shard() {
    let r = decide_shard_info(5, Some((1, 4)), None).unwrap();
    assert_eq!(r, (1, 4, Some(ScaleOut { shard_num: 5 })));
    let started = Some(ScaleOutPhase::Ready { observe_util: 3, shard_num: 1 });
    let r = decide_shard_info(5, Some((1, 4)), started).unwrap();
    assert_eq!(r, (1, 4, Some(ScaleOut { shard_num: 5 })));
}

#[test]
fn normal_phase_other_shard_is_refused() {
    let r = decide_shard_info(2, Some((1, 4)), None);
    assert!(matches!(r, Err(ShardInfoError::InvalidShardNum)));
    assert_eq!(r.unwrap_err().message(), "Invalid shard num");
}

#[test]
fn commit_phase_non_genesis() {
    let commit = Some(ScaleOutPhase::Commiting { shard_count: 8 });
    assert_eq!(decide_shard_info(1, Some((1, 4)), commit).unwrap(), (1, 8, None));
    assert_eq!(decide_shard_info(5, Some((1, 4)), commit).unwrap(), (5, 8, None));
    let r = decide_shard_info(3, Some((1, 4)), commit);
    assert!(matches!(r, Err(ShardInfoError::NonGenesisCommit)));
    assert_eq!(
        r.unwrap_err().message(),
        "Invalid shard num on non-genesis block scale out phase commiting"
    );
}

#[test]
fn commit_phase_genesis() {
    let commit = Some(ScaleOutPhase::Commiting { shard_count: 4 });
    assert_eq!(decide_shard_info(0, None, commit).unwrap(), (0, 4, None));
    assert_eq!(decide_shard_info(4, None, commit).unwrap(), (4, 4, None));
    let r = decide_shard_info(5, None, commit);
    assert!(matches!(r, Err(ShardInfoError::GenesisCommit)));
    assert_eq!(
        r.unwrap_err().message(),
        "Invalid shard num on genesis block scale out phase commiting"
    );
}

#[test]
fn get_shard_info_at_genesis_reads_genesis_count() {
    let calls = Cell::new(0);
    let logs = vec![DigestLog::Other];
    let r = get_shard_info(&logs, 3, || {
        calls.set(calls.get() + 1);
        Ok(4)
    });
    assert_eq!(r.unwrap(), (3, 4, None));
    assert_eq!(calls.get(), 1);
}

#[test]
fn get_shard_info_genesis_count_error() {
    let logs: Vec<DigestLog> = vec![];
    let r = get_shard_info(&logs, 0, || Err("runtime api failed".to_string()));
    match r {
        Err(ShardInfoError::Client(m)) => assert_eq!(m, "runtime api failed"),
        other => panic!("unexpected {:?}", other),
    }
}

#[test]
fn get_shard_info_uses_header_records() {
    let calls = Cell::new(0);
    let logs = sample_logs();
    let r = get_shard_info(&logs, 6, || {
        calls.set(calls.get() + 1);
        Ok(99)
    });
    // shard (2, 4) committing to 8 shards: 6 is 2 + 4.
    assert_eq!(r.unwrap(), (6, 8, None));
    assert_eq!(calls.get(), 0);
    let logs = vec![DigestLog::ShardInfo { shard_num: 2, shard_count: 4 }];
    assert_eq!(
        get_shard_info(&logs, 6, || Ok(99)).unwrap(),
        (2, 4, Some(ScaleOut { shard_num: 6 }))
    );
}

#[test]
fn target_is_scale_out_target_or_shard() {
    assert_eq!(target_shard_num(1, None), 1);
    assert_eq!(target_shard_num(1, Some(ScaleOut { shard_num: 5 })), 5);
}

#[test]
fn target_is_requested_shard_after_decision() {
    for (arg, info) in [(1u16, (1u16, 4u16)), (5, (1, 4))] {
        let (num, _count, scale_out) = decide_shard_info(arg, Some(info), None).unwrap();
        assert_eq!(target_shard_num(num, scale_out), arg);
    }
}

#[test]
fn restart_on_commit_when_coinbase_accords() {
    let logs = vec![
        DigestLog::ScaleOutPhase(ScaleOutPhase::Commiting { shard_count: 8 }),
        DigestLog::Other,
    ];
    let asked = Cell::new(0u16);
    let r = restart_signal(5, &logs, |count| {
        asked.set(count);
        5
    });
    assert_eq!(r, Some(RestartSignal::Restart));
    assert_eq!(asked.get(), 8);
}

#[test]
fn stop_on_commit_when_coinbase_discords() {
    let logs = vec![DigestLog::ScaleOutPhase(ScaleOutPhase::Commiting { shard_count: 8 })];
    assert_eq!(restart_signal(5, &logs, |_| 1), Some(RestartSignal::Stop));
}

#[test]
fn no_signal_without_commit() {
    let calls = Cell::new(0);
    let logs = vec![
        DigestLog::ScaleOutPhase(ScaleOutPhase::Commiting { shard_count: 8 }),
        DigestLog::ScaleOutPhase(ScaleOutPhase::NativeReady { observe_util: 9, shard_num: 1 }),
    ];
    let r = restart_signal(5, &logs, |_| {
        calls.set(calls.get() + 1);
        5
    });
    assert_eq!(r, None);
    assert_eq!(restart_signal(5, &vec![DigestLog::Other], |_| 5), None);
    assert_eq!(calls.get(), 0);
}
