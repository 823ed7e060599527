use marketfeed_daemon::config::{default_overflow, default_sink_capacity};
use marketfeed_daemon::mailbox::{account_enqueue, MailboxState, SinkError};
use marketfeed_daemon::queue::{OverflowPolicy, PushOutcome};
use marketfeed_daemon::sink_config::{SinkConfig, SinkKind};
use marketfeed_daemon::sinks::{
    drain_check, kind_label, plan_sink, shutdown_result, spill_recovery_check, DrainCheck, SinkHealth, SinkTarget,
};

fn sink(sink_type: &str) -> SinkConfig {
    SinkConfig {
        id: None,
        required: false,
        sink_type: sink_type.to_string(),
        path: None,
        address: None,
        topic: None,
        subject: None,
        capacity: default_sink_capacity(),
        overflow: default_overflow(),
        wal_limit: None,
    }
}

#[test]
fn in_process_sinks_get_a_default_id_from_their_position() {
    let plan = plan_sink(&sink("memory"), 3).unwrap();
    assert_eq!(plan.id, "memory-3");
    assert_eq!(plan.kind, SinkKind::Memory);
    assert_eq!(plan.kind_label, "memory");
    assert_eq!(plan.target, SinkTarget::InProcess);
    assert_eq!(plan.capacity, default_sink_capacity());

    let mut named = sink("logging");
    named.id = Some("audit".into());
    named.required = true;
    named.overflow = "drop_oldest".into();
    let plan = plan_sink(&named, 0).unwrap();
    assert_eq!(plan.id, "audit");
    assert!(plan.required);
    assert_eq!(plan.policy, OverflowPolicy::DropOldest);
}

#[test]
fn file_sinks_need_a_path_and_network_sinks_an_address() {
    let err = plan_sink(&sink("file"), 0).unwrap_err();
    assert_eq!(err, "validation: sinks[type=file].path required for type=file|protobuf-file|protobuf-file-bin|spill-wal");
    let mut f = sink("protobuf-file-bin");
    f.path = Some("  /tmp/out.bin ".into());
    let plan = plan_sink(&f, 1).unwrap();
    assert_eq!(plan.target, SinkTarget::Path("/tmp/out.bin".into()));
    assert_eq!(plan.kind_label, "protobuf-file-bin");

    let err = plan_sink(&sink("udp"), 0).unwrap_err();
    assert_eq!(err, "validation: sinks[type=udp].address required for type=udp|kafka|nats");
    let mut u = sink("udp");
    u.address = Some("127.0.0.1:9000".into());
    assert_eq!(plan_sink(&u, 0).unwrap().target, SinkTarget::Address("127.0.0.1:9000".into()));
}

#[test]
fn spill_wal_fails_closed_and_needs_a_cap() {
    let mut w = sink("spill-wal");
    w.path = Some("/tmp/spill".into());
    let err = plan_sink(&w, 0).unwrap_err();
    assert_eq!(err, "validation: sinks[type=spill-wal].wal_limit required for type=spill-wal");
    w.wal_limit = Some("1KiB".into());
    w.overflow = "drop_newest".into();
    let plan = plan_sink(&w, 0).unwrap();
    assert_eq!(plan.policy, OverflowPolicy::FailEngine);
    assert_eq!(plan.target, SinkTarget::SpillWal { path: "/tmp/spill".into(), wal_limit_bytes: 1024 });
}

#[test]
fn unknown_types_bad_policies_and_missing_features_are_refused() {
    let err = plan_sink(&sink("carrier-pigeon"), 0).unwrap_err();
    assert!(err.starts_with("validation: unknown sink type \"carrier-pigeon\""), "{err}");
    let mut bad = sink("memory");
    bad.overflow = "explode".into();
    assert!(plan_sink(&bad, 0).unwrap_err().starts_with("validation: sinks[type=memory].overflow"));
    let mut k = sink("kafka");
    k.address = Some("127.0.0.1:9092".into());
    k.topic = Some("t".into());
    assert_eq!(
        plan_sink(&k, 0).unwrap_err(),
        "sink type=kafka requires marketfeed-daemon feature `kafka` (TCP Produce v0)"
    );
    assert_eq!(plan_sink(&sink("nats"), 0).unwrap_err(), "sink type=nats requires marketfeed-daemon feature `nats` (TCP PUB)");
    assert_eq!(kind_label(SinkKind::SpillWal), "spill-wal");
}

#[test]
fn spill_wal_with_recovered_records_refuses_startup() {
    assert_eq!(spill_recovery_check("/tmp/spill", 0), Ok(()));
    let err = spill_recovery_check("/tmp/spill", 2).unwrap_err();
    assert!(err.starts_with("spill-wal sink /tmp/spill contains 2 unacknowledged recovery record(s)"));
    assert!(err.contains("fail-closed"));
}

#[test]
fn worker_failure_is_health_visible_and_discards_backlog() {
    let mut health = SinkHealth::started();
    let mut mailbox: MailboxState<u64> = MailboxState::new(4, OverflowPolicy::DropNewest);
    for i in 0..3u64 {
        let acc = account_enqueue(mailbox.push(i), true);
        health.book_enqueue(&acc);
    }
    assert_eq!(health.enqueued, 3);
    let first = mailbox.pop_for_worker();
    assert_eq!(first, Some(0));
    // The sink fails on the first item: the worker books it and discards the rest.
    let discarded = mailbox.finish_item(true);
    health.book_failure(format!("{:?}", SinkError::Io("disk full".into())), discarded);
    assert!(!health.healthy);
    assert_eq!(health.errors, 1);
    assert_eq!(health.dropped, 3);
    assert_eq!(health.last_error.as_deref(), Some("Io(\"disk full\")"));
    let snap = health.snapshot("file-0", "file", true, mailbox.len(), mailbox.capacity(), 0);
    assert_eq!(snap.queue_len, 0);
    assert!(!snap.healthy);
    match drain_check(&snap, false) {
        DrainCheck::Failed(m) => assert_eq!(m, "required sink file-0 (file) unhealthy during shutdown: Io(\"disk full\")"),
        other => panic!("unexpected {other:?}"),
    }
    // An optional sink that failed does not poison shutdown.
    let optional = health.snapshot("file-1", "file", false, 0, 4, 0);
    assert_eq!(drain_check(&optional, true), DrainCheck::Drained);
}

#[test]
fn deliveries_count_what_the_sink_dropped() {
    let mut health = SinkHealth::started();
    health.book_delivery(PushOutcome::Accepted);
    health.book_delivery(PushOutcome::DroppedNewest);
    health.book_delivery(PushOutcome::DroppedOldest { dropped: 4 });
    assert_eq!(health.dropped, 5);
    assert!(health.healthy);
    let mut wrap = SinkHealth::started();
    wrap.dropped = u64::MAX;
    wrap.book_delivery(PushOutcome::DroppedNewest);
    assert_eq!(wrap.dropped, 0);
}

#[test]
fn drain_waits_then_times_out() {
    let health = SinkHealth::started();
    let busy = health.snapshot("memory-0", "memory", true, 2, 8, 1);
    assert_eq!(drain_check(&busy, false), DrainCheck::Waiting);
    assert_eq!(
        drain_check(&busy, true),
        DrainCheck::Failed("sink memory-0 drain deadline exceeded (queue:in_flight=2:1)".into())
    );
    let idle = health.snapshot("memory-0", "memory", true, 0, 8, 0);
    assert_eq!(drain_check(&idle, true), DrainCheck::Drained);
}

#[test]
fn shutdown_joins_every_worker_error() {
    assert_eq!(shutdown_result(&Vec::new()), Ok(()));
    assert_eq!(shutdown_result(&vec!["a".to_string()]), Err("a".to_string()));
    assert_eq!(shutdown_result(&vec!["a".to_string(), "b".to_string(), "c".to_string()]), Err("a; b; c".to_string()));
}
