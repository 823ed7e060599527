use marketfeed_daemon::queue::{BoundedQueue, DispatchError, EventDispatcher, OverflowPolicy, PushOutcome};

#[derive(Debug, Clone, PartialEq)]
struct Batch {
    frame_seq: u64,
}

fn batch(seq: u64) -> Batch {
    Batch { frame_seq: seq }
}

#[derive(Clone, Copy)]
enum Op {
    Push(u64),
    Pop,
}

fn run(policy: OverflowPolicy, ops: &[Op]) -> (Vec<u64>, u64, Option<&'static str>) {
    let mut q = BoundedQueue::new(2, policy);
    let mut drained = Vec::new();
    let mut err = None;
    for op in ops {
        match *op {
            Op::Push(v) => match q.try_push(v) {
                Ok(_) => {}
                Err(DispatchError::FailEngine) => err = Some("fail"),
                Err(DispatchError::DeadlineExceeded) => err = Some("deadline"),
                Err(DispatchError::UnsupportedPolicy(_)) => err = Some("unsupported"),
            },
            Op::Pop => {
                if let Some(v) = q.pop_front() {
                    drained.push(v);
                }
            }
        }
    }
    while let Some(v) = q.pop_front() {
        drained.push(v);
    }
    (drained, q.dropped_total, err)
}

#[test]
fn drop_oldest_and_fail_engine() {
    let mut q = BoundedQueue::new(2, OverflowPolicy::DropOldest);
    assert!(q.try_push(1).is_ok());
    assert!(q.try_push(2).is_ok());
    assert_eq!(q.try_push(3).unwrap(), PushOutcome::DroppedOldest { dropped: 1 });
    assert_eq!(q.pop_front(), Some(2));
    assert_eq!(q.pop_front(), Some(3));

    let mut fail = BoundedQueue::new(1, OverflowPolicy::FailEngine);
    fail.try_push(1).unwrap();
    assert!(matches!(fail.try_push(2), Err(DispatchError::FailEngine)));
}

#[test]
fn drop_newest_preserves_existing() {
    let mut q = BoundedQueue::new(1, OverflowPolicy::DropNewest);
    q.try_push(batch(1)).unwrap();
    assert_eq!(q.try_push(batch(2)).unwrap(), PushOutcome::DroppedNewest);
    assert_eq!(q.pop_front().unwrap().frame_seq, 1);
    assert_eq!(q.dropped_total, 1);
}

#[test]
fn push_outcome_signals_caller_must_emit_events_dropped() {
    let mut q = BoundedQueue::new(1, OverflowPolicy::DropOldest);
    q.try_push(1).unwrap();
    assert_eq!(q.try_push(2).unwrap(), PushOutcome::DroppedOldest { dropped: 1 });
    let mut newest = BoundedQueue::new(1, OverflowPolicy::DropNewest);
    newest.try_push(1).unwrap();
    assert_eq!(newest.try_push(2).unwrap(), PushOutcome::DroppedNewest);
}

#[test]
fn overflow_op_permutations_match_oracle() {
    let base = [Op::Push(1), Op::Push(2), Op::Push(3), Op::Pop, Op::Pop, Op::Push(4)];
    let perms: &[&[Op]] = &[
        &base,
        &[Op::Push(1), Op::Pop, Op::Push(2), Op::Push(3), Op::Push(4), Op::Pop],
        &[Op::Push(1), Op::Push(2), Op::Pop, Op::Push(3), Op::Pop, Op::Push(4)],
        &[Op::Pop, Op::Push(1), Op::Push(2), Op::Push(3), Op::Pop, Op::Push(4)],
        &[Op::Push(1), Op::Push(2), Op::Push(3), Op::Push(4), Op::Pop, Op::Pop, Op::Pop, Op::Push(5)],
        &[Op::Push(10), Op::Push(20), Op::Pop, Op::Pop, Op::Push(30), Op::Push(40), Op::Push(50)],
        &[Op::Pop, Op::Pop, Op::Push(1), Op::Push(2), Op::Push(3), Op::Pop, Op::Push(4), Op::Push(5)],
    ];

    for ops in perms {
        let (drop_oldest, dropped_o, err_o) = run(OverflowPolicy::DropOldest, ops);
        let (drop_newest, dropped_n, err_n) = run(OverflowPolicy::DropNewest, ops);
        let (fail, _, err_f) = run(OverflowPolicy::FailEngine, ops);
        assert!(err_o.is_none());
        assert!(err_n.is_none());
        assert_eq!(run(OverflowPolicy::DropOldest, ops).0, drop_oldest);
        assert_eq!(run(OverflowPolicy::DropNewest, ops).0, drop_newest);
        assert_eq!(run(OverflowPolicy::FailEngine, ops).0, fail);
        assert_eq!(run(OverflowPolicy::DropOldest, ops).1, dropped_o);
        assert_eq!(run(OverflowPolicy::DropNewest, ops).1, dropped_n);
        assert_eq!(run(OverflowPolicy::FailEngine, ops).2, err_f);
        assert!(drop_oldest.len() <= ops.iter().filter(|o| matches!(o, Op::Push(_))).count());
        assert!(drop_newest.len() <= 2 + ops.iter().filter(|o| matches!(o, Op::Pop)).count());
    }
}

#[test]
fn overflow_policy_survivors_differ() {
    let mut newest = BoundedQueue::new(2, OverflowPolicy::DropNewest);
    newest.try_push(1u64).unwrap();
    newest.try_push(2).unwrap();
    assert_eq!(newest.try_push(3).unwrap(), PushOutcome::DroppedNewest);
    let mut n = Vec::new();
    while let Some(v) = newest.pop_front() {
        n.push(v);
    }
    assert_eq!(n, vec![1, 2]);

    let mut oldest = BoundedQueue::new(2, OverflowPolicy::DropOldest);
    oldest.try_push(1u64).unwrap();
    oldest.try_push(2).unwrap();
    assert_eq!(oldest.try_push(3).unwrap(), PushOutcome::DroppedOldest { dropped: 1 });
    let mut o = Vec::new();
    while let Some(v) = oldest.pop_front() {
        o.push(v);
    }
    assert_eq!(o, vec![2, 3]);
}

#[test]
fn full_queue_errors_name_their_policy() {
    let mut blocking = BoundedQueue::new(1, OverflowPolicy::BlockWithDeadline);
    blocking.try_push(1u8).unwrap();
    assert_eq!(blocking.try_push(2), Err(DispatchError::DeadlineExceeded));
    let mut spill = BoundedQueue::new(1, OverflowPolicy::SpillToDisk);
    spill.try_push(1u8).unwrap();
    let err = spill.try_push(2).unwrap_err();
    assert_eq!(err, DispatchError::UnsupportedPolicy(OverflowPolicy::SpillToDisk));
    assert_eq!(err.message(), "overflow policy not implemented for this queue: SpillToDisk");
    assert_eq!(DispatchError::FailEngine.message(), "queue full under FailEngine policy");
    assert_eq!(DispatchError::DeadlineExceeded.message(), "queue full and BlockWithDeadline timed out");
}

#[test]
fn deadline_step_waits_then_fails() {
    let mut q = BoundedQueue::new(1, OverflowPolicy::BlockWithDeadline);
    assert_eq!(q.push_with_deadline_step(1u8, false), Ok(Ok(PushOutcome::Accepted)));
    assert_eq!(q.push_with_deadline_step(2u8, false), Err(2u8));
    assert_eq!(q.push_with_deadline_step(2u8, true), Ok(Err(DispatchError::DeadlineExceeded)));
    assert_eq!(q.pop_front(), Some(1));
    assert_eq!(q.push_with_deadline_step(2u8, false), Ok(Ok(PushOutcome::Accepted)));
    assert_eq!(q.dropped_total, 0);
}

#[test]
fn drop_oldest_accounts_for_every_item() {
    let mut q = BoundedQueue::new(3, OverflowPolicy::DropOldest);
    for v in 0..10u32 {
        q.try_push(v).unwrap();
    }
    assert_eq!(q.len(), 3);
    assert_eq!(q.dropped_total, 7);
    assert_eq!(q.drain(), vec![7, 8, 9]);
    assert!(q.is_empty());
}

#[test]
fn dispatcher_keeps_batches_and_systems_apart() {
    let mut d: EventDispatcher<u32, &'static str> = EventDispatcher::new(2, 1, OverflowPolicy::DropNewest);
    assert_eq!(d.push_batch(1).unwrap(), PushOutcome::Accepted);
    assert_eq!(d.push_batch(2).unwrap(), PushOutcome::Accepted);
    assert_eq!(d.push_batch(3).unwrap(), PushOutcome::DroppedNewest);
    assert_eq!(d.push_system("start").unwrap(), PushOutcome::Accepted);
    assert_eq!(d.push_system("stop").unwrap(), PushOutcome::DroppedNewest);
    assert_eq!(d.pop_system(), Some("start"));
    assert_eq!(d.drain_batches(), vec![1, 2]);
    assert_eq!(d.batches().len(), 0);
    assert_eq!(d.systems().capacity(), 1);
}

#[test]
fn pushes_that_drop_nothing_work_at_a_full_drop_counter() {
    let mut q = BoundedQueue::new(1, OverflowPolicy::DropNewest);
    q.dropped_total = u64::MAX;
    assert_eq!(q.try_push(1u8), Ok(PushOutcome::Accepted));
    assert_eq!(q.dropped_count(), u64::MAX);

    let mut b = BoundedQueue::new(1, OverflowPolicy::BlockWithDeadline);
    b.dropped_total = u64::MAX;
    assert_eq!(b.push_with_deadline_step(1u8, false), Ok(Ok(PushOutcome::Accepted)));
    assert_eq!(b.push_with_deadline_step(2u8, true), Ok(Err(DispatchError::DeadlineExceeded)));
    assert_eq!(b.dropped_count(), u64::MAX);
}
