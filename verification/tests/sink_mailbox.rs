use marketfeed_daemon::mailbox::{
    account_enqueue, fan_out, merge_outcome, merge_result, required_healthy, MailboxState, SinkError, SinkSnapshot,
};
use marketfeed_daemon::queue::{OverflowPolicy, PushOutcome};

#[derive(Debug, Clone, PartialEq)]
enum Item {
    Batch(u64),
    System(&'static str),
}

fn snapshot(id: &str, required: bool, healthy: bool) -> SinkSnapshot {
    SinkSnapshot {
        id: id.to_string(),
        kind: "memory",
        required,
        healthy,
        queue_len: 0,
        queue_capacity: 2,
        in_flight: 0,
        enqueued: 0,
        dropped: 0,
        errors: 0,
        last_error: None,
    }
}

#[test]
fn mailbox_preserves_batch_and_system_fifo() {
    let mut mailbox = MailboxState::new(4, OverflowPolicy::FailEngine);
    assert_eq!(mailbox.push(Item::Batch(1)).unwrap(), PushOutcome::Accepted);
    assert_eq!(mailbox.push(Item::System("test")).unwrap(), PushOutcome::Accepted);
    assert_eq!(mailbox.push(Item::Batch(3)).unwrap(), PushOutcome::Accepted);
    assert_eq!(mailbox.pop(), Some(Item::Batch(1)));
    assert_eq!(mailbox.pop(), Some(Item::System("test")));
    assert_eq!(mailbox.pop(), Some(Item::Batch(3)));
}

#[test]
fn mailbox_applies_drop_policies_without_growing() {
    let mut newest = MailboxState::new(1, OverflowPolicy::DropNewest);
    newest.push(Item::Batch(1)).unwrap();
    assert_eq!(newest.push(Item::Batch(2)).unwrap(), PushOutcome::DroppedNewest);
    assert_eq!(newest.len(), 1);
    assert_eq!(newest.pop(), Some(Item::Batch(1)));

    let mut oldest = MailboxState::new(1, OverflowPolicy::DropOldest);
    oldest.push(Item::Batch(1)).unwrap();
    assert_eq!(oldest.push(Item::Batch(2)).unwrap(), PushOutcome::DroppedOldest { dropped: 1 });
    assert_eq!(oldest.len(), 1);
    assert_eq!(oldest.pop(), Some(Item::Batch(2)));
}

#[test]
fn mailbox_fail_engine_is_fail_closed() {
    let mut mailbox = MailboxState::new(1, OverflowPolicy::FailEngine);
    mailbox.push(Item::Batch(1)).unwrap();
    assert_eq!(mailbox.push(Item::Batch(2)).unwrap_err(), SinkError::FailEngine);
    assert_eq!(mailbox.len(), 1);
}

#[test]
fn closed_mailbox_refuses_and_finish_discards_backlog() {
    let mut mailbox = MailboxState::new(4, OverflowPolicy::DropNewest);
    mailbox.push(1u8).unwrap();
    mailbox.push(2u8).unwrap();
    mailbox.push(3u8).unwrap();
    assert_eq!(mailbox.pop_for_worker(), Some(1));
    assert_eq!(mailbox.status(), (2, 1));
    assert_eq!(mailbox.finish_item(true), 2);
    assert_eq!(mailbox.status(), (0, 0));
    assert_eq!(mailbox.push(4u8), Err(SinkError::Io("sink worker is closed".to_string())));
    assert_eq!(mailbox.capacity(), 4);

    let mut open = MailboxState::new(2, OverflowPolicy::DropNewest);
    open.push(9u8).unwrap();
    open.close();
    assert_eq!(open.pop_for_worker(), Some(9));
    assert_eq!(open.pop_for_worker(), None);
}

#[test]
fn fanout_preserves_optional_sink_drop_and_continues() {
    // An optional sink that has closed books its refusal as a drop; the fan-out goes on
    // to the healthy sink and reports the drop.
    let closed = account_enqueue(Err(SinkError::Io("sink worker is closed".into())), false);
    assert_eq!(closed.result, Ok(PushOutcome::DroppedNewest));
    assert_eq!(closed.dropped, 1);
    let healthy = account_enqueue(Ok(PushOutcome::Accepted), false);
    assert_eq!(healthy.enqueued, 1);
    assert_eq!(fan_out(vec![closed.result, healthy.result]), Ok(PushOutcome::DroppedNewest));
}

#[test]
fn fanout_attempts_every_sink_before_returning_required_error() {
    let failed = account_enqueue(Err(SinkError::Io("sink worker is closed".into())), true);
    assert!(matches!(failed.result, Err(SinkError::Io(_))));
    let mut outcome = PushOutcome::Accepted;
    let mut first_error = None;
    merge_result(&mut outcome, &mut first_error, failed.result.clone());
    merge_result(&mut outcome, &mut first_error, Ok(PushOutcome::Accepted));
    assert!(matches!(first_error, Some(SinkError::Io(_))));
    assert!(matches!(fan_out(vec![failed.result, Ok(PushOutcome::Accepted)]), Err(SinkError::Io(_))));
}

#[test]
fn fanout_keeps_the_first_error_and_sums_oldest_drops() {
    let results: Vec<Result<PushOutcome, SinkError>> = vec![
        Ok(PushOutcome::DroppedOldest { dropped: 1 }),
        Ok(PushOutcome::DroppedOldest { dropped: 2 }),
        Ok(PushOutcome::Accepted),
    ];
    assert_eq!(fan_out(results), Ok(PushOutcome::DroppedOldest { dropped: 3 }));
    let results: Vec<Result<PushOutcome, SinkError>> =
        vec![Ok(PushOutcome::Accepted), Err(SinkError::FailEngine), Err(SinkError::DeadlineExceeded)];
    assert_eq!(fan_out(results), Err(SinkError::FailEngine));
    assert_eq!(fan_out(Vec::<Result<PushOutcome, SinkError>>::new()), Ok(PushOutcome::Accepted));

    let mut agg = PushOutcome::DroppedNewest;
    merge_outcome(&mut agg, PushOutcome::DroppedOldest { dropped: 4 });
    assert_eq!(agg, PushOutcome::DroppedNewest);
    let mut agg = PushOutcome::DroppedOldest { dropped: usize::MAX };
    merge_outcome(&mut agg, PushOutcome::DroppedOldest { dropped: 1 });
    assert_eq!(agg, PushOutcome::DroppedOldest { dropped: usize::MAX });
}

#[test]
fn drop_oldest_counts_the_replacement_as_enqueued() {
    let mut enqueued = 0u64;
    let mut dropped = 0u64;
    for r in [Ok(PushOutcome::Accepted), Ok(PushOutcome::Accepted), Ok(PushOutcome::DroppedOldest { dropped: 1 })] {
        let a = account_enqueue(r, false);
        enqueued += a.enqueued;
        dropped += a.dropped;
    }
    assert_eq!(enqueued, 3);
    assert_eq!(dropped, 1);
}

#[test]
fn required_sink_failure_changes_aggregate_health() {
    let mut snaps = vec![snapshot("required", true, true)];
    assert!(required_healthy(&snaps));
    snaps[0].healthy = false;
    assert!(!required_healthy(&snaps));
    snaps[0].required = false;
    assert!(required_healthy(&snaps));
}
