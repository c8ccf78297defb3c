use predator_snake_dqn::inference_bridge::coordinator::{
    batch_observations, coordinator_step, BatchAction, BatchEvent, BatchPhase, CoordinatorConfig,
};

fn config(batch_size: usize) -> CoordinatorConfig {
    CoordinatorConfig {
        batch_size,
        max_batch_wait_us: 5000,
        obs_size: 5 * 10 * 10,
    }
}

#[test]
fn the_first_job_opens_a_batch() {
    assert_eq!(
        coordinator_step(&config(8), BatchPhase::Idle, BatchEvent::JobArrived),
        (BatchPhase::Collecting(1), BatchAction::AwaitMoreJobs)
    );
    assert_eq!(
        coordinator_step(&config(1), BatchPhase::Idle, BatchEvent::JobArrived),
        (BatchPhase::Idle, BatchAction::Dispatch(1))
    );
    assert_eq!(
        coordinator_step(&config(0), BatchPhase::Idle, BatchEvent::JobArrived),
        (BatchPhase::Idle, BatchAction::Dispatch(1))
    );
}

#[test]
fn an_idle_coordinator_stops_when_the_channel_closes() {
    assert_eq!(
        coordinator_step(&config(8), BatchPhase::Idle, BatchEvent::ChannelClosed),
        (BatchPhase::Idle, BatchAction::Shutdown)
    );
    assert_eq!(
        coordinator_step(&config(8), BatchPhase::Idle, BatchEvent::DeadlinePassed),
        (BatchPhase::Idle, BatchAction::AwaitFirstJob)
    );
}

#[test]
fn a_batch_is_sent_when_full_late_or_closed() {
    assert_eq!(
        coordinator_step(&config(8), BatchPhase::Collecting(6), BatchEvent::JobArrived),
        (BatchPhase::Collecting(7), BatchAction::AwaitMoreJobs)
    );
    assert_eq!(
        coordinator_step(&config(8), BatchPhase::Collecting(7), BatchEvent::JobArrived),
        (BatchPhase::Idle, BatchAction::Dispatch(8))
    );
    assert_eq!(
        coordinator_step(&config(8), BatchPhase::Collecting(3), BatchEvent::DeadlinePassed),
        (BatchPhase::Idle, BatchAction::Dispatch(3))
    );
    assert_eq!(
        coordinator_step(&config(8), BatchPhase::Collecting(3), BatchEvent::ChannelClosed),
        (BatchPhase::Idle, BatchAction::Dispatch(3))
    );
}

#[test]
fn every_job_is_dispatched_once_in_batches_of_at_most_batch_size() {
    // A hundred jobs arrive back to back, with a deadline after every seventh, then the
    // channel closes.
    let cfg = config(8);
    let mut phase = BatchPhase::Idle;
    let mut dispatched = Vec::new();
    let mut events = Vec::new();
    for j in 0..100 {
        events.push(BatchEvent::JobArrived);
        if j % 7 == 6 {
            events.push(BatchEvent::DeadlinePassed);
        }
    }
    events.push(BatchEvent::ChannelClosed);
    events.push(BatchEvent::ChannelClosed);
    let mut stopped = false;
    for event in events {
        assert!(!stopped);
        let (next, action) = coordinator_step(&cfg, phase, event);
        phase = next;
        match action {
            BatchAction::Dispatch(n) => dispatched.push(n),
            BatchAction::Shutdown => stopped = true,
            _ => {}
        }
    }
    assert!(stopped);
    assert_eq!(dispatched.iter().sum::<usize>(), 100);
    assert!(dispatched.iter().all(|&n| 1 <= n && n <= 8));
}

#[test]
fn a_batch_holds_the_observations_in_arrival_order() {
    let observations = vec![vec![1u8, 2, 3], vec![], vec![4u8], vec![5u8, 6]];
    assert_eq!(batch_observations(&observations), vec![1u8, 2, 3, 4, 5, 6]);
    assert_eq!(batch_observations(&Vec::new()), Vec::<u8>::new());
    let big: Vec<Vec<u8>> = (0..8).map(|k| vec![k as u8; 500]).collect();
    let batch = batch_observations(&big);
    assert_eq!(batch.len(), 4000);
    assert!(batch.chunks(500).enumerate().all(|(k, chunk)| chunk.iter().all(|&b| b == k as u8)));
}
