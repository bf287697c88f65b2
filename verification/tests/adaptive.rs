use bsd_xtcp::echo::adaptive::{AdaptiveRamp, Attempt, Fate};
use bsd_xtcp::echo::ramp::{RampAction, MIN_BATCH};

/// Runs every attempt of one batch with `outcome(conn_index, attempt_no)`.
fn run_batch(
    ramp: &mut AdaptiveRamp,
    outcome: &dyn Fn(u32, u32) -> bool,
    log: &mut Vec<(Attempt, Fate)>,
) -> (bool, RampAction) {
    ramp.start_batch();
    while let Some(a) = ramp.next_attempt() {
        let (index, n) = match a {
            Attempt::Retry { conn_index, attempts } => (conn_index, attempts),
            Attempt::New { conn_index } => (conn_index, 1),
        };
        let fate = ramp.record(outcome(index, n));
        log.push((a, fate));
    }
    ramp.finish_batch()
}

#[test]
fn adaptive_first_batch_opens_new_connections() {
    let mut ramp = AdaptiveRamp::new(3, 4, 100, 3);
    assert!(ramp.has_work());
    let mut log = Vec::new();
    let (good, action) = run_batch(&mut ramp, &|i, _| i != 1, &mut log);
    assert_eq!(
        log,
        vec![
            (Attempt::New { conn_index: 0 }, Fate::Connected),
            (Attempt::New { conn_index: 1 }, Fate::Requeued),
            (Attempt::New { conn_index: 2 }, Fate::Connected),
        ]
    );
    // 2 of 3 is below 95%: the batch shrinks, but not below the minimum.
    assert!(!good);
    assert_eq!(action, RampAction::Decreased);
    assert_eq!(ramp.batch_size(), MIN_BATCH);
    assert_eq!(ramp.connected(), 2);
    assert_eq!(ramp.failed(), 0);
    assert_eq!(ramp.queued(), 1);
    assert!(ramp.has_work());
}

#[test]
fn adaptive_retries_until_the_limit() {
    let mut ramp = AdaptiveRamp::new(3, 4, 100, 3);
    let mut log = Vec::new();
    run_batch(&mut ramp, &|i, _| i != 1, &mut log);
    log.clear();
    run_batch(&mut ramp, &|_, _| false, &mut log);
    assert_eq!(log, vec![(Attempt::Retry { conn_index: 1, attempts: 2 }, Fate::Requeued)]);
    log.clear();
    run_batch(&mut ramp, &|_, _| false, &mut log);
    assert_eq!(log, vec![(Attempt::Retry { conn_index: 1, attempts: 3 }, Fate::Failed)]);
    assert!(!ramp.has_work());
    assert_eq!(ramp.connected() + ramp.failed(), 3);
    assert_eq!(ramp.failed(), 1);
}

#[test]
fn adaptive_without_retries_gives_up_at_once() {
    let mut ramp = AdaptiveRamp::new(2, 10, 100, 0);
    let mut log = Vec::new();
    run_batch(&mut ramp, &|_, _| false, &mut log);
    assert_eq!(
        log,
        vec![
            (Attempt::New { conn_index: 0 }, Fate::Failed),
            (Attempt::New { conn_index: 1 }, Fate::Failed),
        ]
    );
    assert!(!ramp.has_work());
    assert_eq!(ramp.failed(), 2);
}

#[test]
fn adaptive_single_retry_limit_still_retries_once() {
    let mut ramp = AdaptiveRamp::new(1, 8, 100, 1);
    let mut log = Vec::new();
    run_batch(&mut ramp, &|_, _| false, &mut log);
    run_batch(&mut ramp, &|_, _| false, &mut log);
    assert_eq!(
        log,
        vec![
            (Attempt::New { conn_index: 0 }, Fate::Requeued),
            (Attempt::Retry { conn_index: 0, attempts: 2 }, Fate::Failed),
        ]
    );
    assert!(!ramp.has_work());
}

#[test]
fn adaptive_batches_grow_after_three_good_ones() {
    let mut ramp = AdaptiveRamp::new(1000, 10, 25, 3);
    let mut log = Vec::new();
    assert_eq!(run_batch(&mut ramp, &|_, _| true, &mut log), (true, RampAction::Steady));
    assert_eq!(run_batch(&mut ramp, &|_, _| true, &mut log), (true, RampAction::Steady));
    assert_eq!(run_batch(&mut ramp, &|_, _| true, &mut log), (true, RampAction::Increased));
    assert_eq!(ramp.batch_size(), 20);
    for _ in 0..3 {
        run_batch(&mut ramp, &|_, _| true, &mut log);
    }
    assert_eq!(ramp.batch_size(), 25);
    for _ in 0..2 {
        run_batch(&mut ramp, &|_, _| true, &mut log);
    }
    assert_eq!(run_batch(&mut ramp, &|_, _| true, &mut log), (true, RampAction::AtMax));
    assert_eq!(ramp.connected(), 30 + 60 + 75);
}

#[test]
fn adaptive_mixes_retries_into_batches() {
    // Batch of 8: at most 2 retries, then 6 new connections.
    let mut ramp = AdaptiveRamp::new(20, 8, 100, 5);
    let mut log = Vec::new();
    run_batch(&mut ramp, &|i, _| i >= 3, &mut log);
    assert_eq!(ramp.queued(), 3);
    log.clear();
    ramp.start_batch();
    let mut handed = Vec::new();
    while let Some(a) = ramp.next_attempt() {
        handed.push(a);
        ramp.record(true);
    }
    ramp.finish_batch();
    assert_eq!(handed.len(), 10);
    assert_eq!(handed[0], Attempt::Retry { conn_index: 0, attempts: 2 });
    assert_eq!(handed[1], Attempt::Retry { conn_index: 1, attempts: 2 });
    assert_eq!(handed[2], Attempt::New { conn_index: 8 });
    assert_eq!(ramp.queued(), 1);
}

#[test]
fn adaptive_drain_empties_the_queue() {
    let mut ramp = AdaptiveRamp::new(2, 4, 100, 2);
    let mut log = Vec::new();
    run_batch(&mut ramp, &|_, _| false, &mut log);
    assert_eq!(ramp.queued(), 2);
    let mut drained = Vec::new();
    while let Some(a) = ramp.next_drain() {
        drained.push(a);
        ramp.record(false);
    }
    assert_eq!(
        drained,
        vec![
            Attempt::Retry { conn_index: 0, attempts: 2 },
            Attempt::Retry { conn_index: 1, attempts: 2 },
        ]
    );
    assert_eq!(ramp.failed(), 2);
    assert!(!ramp.has_work());
}
