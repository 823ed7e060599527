use marketfeed_daemon::config::{
    default_true, DaemonConfig, EngineConfig, PrivateConfig, ReadinessConfig, RecordingConfig, TelemetryConfig,
};
use marketfeed_daemon::health::{
    all_sessions_live, evaluate_readiness, health_reply, health_response, is_live, live_session_count,
    prometheus_label_value, route_health, HealthRoute,
};
use marketfeed_daemon::metrics::{aggregate_counters, prometheus_text, ProcessGauges, VenueCounters, VenueSample};
use marketfeed_daemon::venue_config::VenueConfig;
use marketfeed_daemon::view::Lifecycle;

fn config_with(venues: Vec<VenueConfig>) -> DaemonConfig {
    DaemonConfig {
        engine: EngineConfig::default(),
        telemetry: TelemetryConfig::default(),
        readiness: ReadinessConfig::default(),
        recording: RecordingConfig::default(),
        private: PrivateConfig::default(),
        venues,
        sinks: Vec::new(),
    }
}

fn venue(id: &str, adapter: &str, required: bool) -> VenueConfig {
    VenueConfig {
        id: id.to_string(),
        adapter: adapter.to_string(),
        segment: None,
        required,
        transport: None,
        symbols: vec!["BTCUSDT".to_string()],
        channels: vec!["trades".to_string()],
        api_key: None,
        api_secret: None,
        passphrase: None,
    }
}

fn zero_counters() -> VenueCounters {
    VenueCounters {
        frames_received: 0,
        frames_sent: 0,
        events_dispatched: 0,
        bytes_received: 0,
        bytes_sent: 0,
        events_normalized: 0,
        events_dropped: 0,
        queue_overflows: 0,
        action_buffer_overflows: 0,
        reconnects: 0,
        sequence_gaps: 0,
        checksum_mismatches: 0,
        book_invalidations: 0,
        book_snapshot_rejections: 0,
        book_resynchronizations: 0,
        parse_failures: 0,
        unknown_messages: 0,
        batch_queue_occupancy: 0,
        batch_queue_capacity: 0,
        system_queue_occupancy: 0,
        system_queue_capacity: 0,
        valid_books: 0,
    }
}

fn gauges() -> ProcessGauges {
    ProcessGauges {
        live: false,
        ready: false,
        live_sessions: 0,
        venues_configured: 1,
        http_requests: 0,
        started_unix_secs: 1_700_000_000,
        recording_enabled: true,
        recording_healthy: false,
        recording_queue_len: 0,
        recording_rotations: 0,
        recording_written: 0,
        recording_dropped: 0,
        disk_pressure: false,
        shutdown_draining: false,
    }
}

#[test]
fn readiness_requires_required_venues() {
    let cfg = config_with(vec![venue("binance-spot", "binance", default_true())]);
    let mut venues = vec![("binance-spot".to_string(), false)];
    assert!(!evaluate_readiness(&cfg.readiness, &cfg, true, &venues, 0, true));
    venues[0].1 = true;
    assert!(evaluate_readiness(&cfg.readiness, &cfg, true, &venues, 0, true));
}

#[test]
fn readiness_checks_process_sessions_and_recording() {
    let cfg = config_with(vec![venue("binance-spot", "binance", false)]);
    let mut policy = cfg.readiness;
    let venues = vec![("binance-spot".to_string(), false)];
    assert!(evaluate_readiness(&policy, &cfg, true, &venues, 0, false));
    assert!(!evaluate_readiness(&policy, &cfg, false, &venues, 0, false));
    policy.min_live_sessions = 2;
    assert!(!evaluate_readiness(&policy, &cfg, true, &venues, 1, false));
    assert!(evaluate_readiness(&policy, &cfg, true, &venues, 2, false));
    policy.require_recording_healthy = true;
    assert!(!evaluate_readiness(&policy, &cfg, true, &venues, 2, false));
    assert!(evaluate_readiness(&policy, &cfg, true, &venues, 2, true));
}

#[test]
fn venue_is_live_only_after_every_planned_session_is_live() {
    let mut flags = vec![true, false];
    assert!(!all_sessions_live(&flags));
    flags[1] = true;
    assert!(all_sessions_live(&flags));
    flags[0] = false;
    assert!(!all_sessions_live(&flags));
    assert!(!all_sessions_live(&Vec::new()));
}

#[test]
fn prometheus_label_values_escape_quotes_backslashes_and_newlines() {
    assert_eq!(prometheus_label_value("venue\"\\\nnext"), "venue\\\"\\\\\\nnext");
}

#[test]
fn liveness_and_session_count() {
    assert!(is_live(true, Lifecycle::Running));
    assert!(!is_live(true, Lifecycle::Draining));
    assert!(!is_live(false, Lifecycle::Running));
    let flags = vec![("a".to_string(), true), ("b".to_string(), false), ("c".to_string(), true)];
    assert_eq!(live_session_count(&flags), 2);
}

#[test]
fn health_routes_and_replies() {
    assert_eq!(route_health("/live"), HealthRoute::Live);
    assert_eq!(route_health("/ready"), HealthRoute::Ready);
    assert_eq!(route_health("/metrics"), HealthRoute::Metrics);
    assert_eq!(route_health("/other"), HealthRoute::NotFound);
    let (status, ct, body) = health_reply(HealthRoute::Live, false, true, String::new());
    assert_eq!((status, ct, body.as_str()), (503, "text/plain; charset=utf-8", "not live\n"));
    let (status, _, body) = health_reply(HealthRoute::Ready, false, true, String::new());
    assert_eq!((status, body.as_str()), (200, "ready\n"));
    let (status, ct, body) = health_reply(HealthRoute::Metrics, true, true, "m 1\n".to_string());
    assert_eq!((status, ct, body.as_str()), (200, "text/plain; version=0.0.4; charset=utf-8", "m 1\n"));
    let (status, _, body) = health_reply(HealthRoute::NotFound, true, true, String::new());
    assert_eq!((status, body.as_str()), (404, "not found\n"));
    assert_eq!(
        health_response(200, "text/plain; charset=utf-8", "live\n", 5),
        "HTTP/1.1 200\r\ncontent-type: text/plain; charset=utf-8\r\ncontent-length: 5\r\nconnection: close\r\n\r\nlive\n"
    );
}

#[test]
fn metrics_include_recording_and_session_series() {
    let mut counters = zero_counters();
    counters.frames_received = 9;
    counters.frames_sent = 2;
    counters.bytes_received = 900;
    counters.bytes_sent = 200;
    counters.events_normalized = 8;
    counters.events_dispatched = 7;
    counters.unknown_messages = 1;
    counters.checksum_mismatches = 2;
    counters.book_resynchronizations = 3;
    counters.queue_overflows = 4;
    counters.action_buffer_overflows = 5;
    counters.valid_books = 6;
    counters.batch_queue_occupancy = 7;
    counters.batch_queue_capacity = 8;
    counters.system_queue_occupancy = 9;
    counters.system_queue_capacity = 10;
    // The histogram series and the aggregate block are rendered by the engine's metrics;
    // here they stand as the text it renders for one observation each.
    let sample = VenueSample {
        id: "syn".to_string(),
        counters,
        frame_latency: "marketfeed_venue_frame_to_event_latency_seconds_bucket{id=\"syn\",le=\"0.0001\"} 1\nmarketfeed_venue_frame_to_event_latency_seconds_count{id=\"syn\"} 1\n".to_string(),
        parse_latency: "marketfeed_venue_parse_duration_seconds_bucket{id=\"syn\",le=\"0.0001\"} 1\nmarketfeed_venue_parse_duration_seconds_count{id=\"syn\"} 1\n".to_string(),
        rest_latency: "marketfeed_venue_rest_latency_seconds_bucket{id=\"syn\",le=\"0.025\"} 1\nmarketfeed_venue_rest_latency_seconds_count{id=\"syn\"} 1\n".to_string(),
        sink_latency: "marketfeed_venue_sink_write_latency_seconds_bucket{id=\"syn\",le=\"0.0005\"} 1\nmarketfeed_venue_sink_write_latency_seconds_count{id=\"syn\"} 1\n".to_string(),
    };
    let samples = vec![sample];
    let agg = aggregate_counters(&samples);
    assert_eq!(agg.frames_received, 9);
    assert_eq!(agg.batch_queue_occupancy, 7);
    let aggregate = format!(
        "# TYPE marketfeed_frames_received_total counter\nmarketfeed_frames_received_total {}\n\
         # TYPE marketfeed_events_dropped_total counter\nmarketfeed_events_dropped_total {}\n\
         # TYPE marketfeed_batch_queue_occupancy gauge\nmarketfeed_batch_queue_occupancy {}\n\
         # TYPE marketfeed_frame_to_event_latency_seconds histogram\nmarketfeed_frame_to_event_latency_seconds_count 1\n\
         # TYPE marketfeed_parse_duration_seconds histogram\nmarketfeed_parse_duration_seconds_count 1\n\
         # TYPE marketfeed_rest_latency_seconds histogram\nmarketfeed_rest_latency_seconds_count 1\n\
         # TYPE marketfeed_sink_write_latency_seconds histogram\nmarketfeed_sink_write_latency_seconds_count 1\n",
        agg.frames_received, agg.events_dropped, agg.batch_queue_occupancy
    );
    let flags = vec![("syn".to_string(), false)];
    let text = prometheus_text(&gauges(), &flags, &aggregate, &samples);
    assert!(text.contains("marketfeed_recording_enabled 1"));
    assert!(text.contains("marketfeed_recording_frames_dropped_total 0"));
    assert!(text.contains("marketfeed_disk_pressure 0"));
    assert!(text.contains("marketfeed_frames_received_total 9"));
    assert!(text.contains("marketfeed_events_dropped_total"));
    assert!(text.contains("marketfeed_batch_queue_occupancy"));
    assert!(text.contains("marketfeed_venue_frames_received_total{id=\"syn\"} 9"));
    assert!(text.contains("marketfeed_venue_frames_sent_total{id=\"syn\"} 2"));
    assert!(text.contains("marketfeed_venue_bytes_received_total{id=\"syn\"} 900"));
    assert!(text.contains("marketfeed_venue_bytes_sent_total{id=\"syn\"} 200"));
    assert!(text.contains("marketfeed_venue_events_normalized_total{id=\"syn\"} 8"));
    assert!(text.contains("marketfeed_venue_events_dispatched_total{id=\"syn\"} 7"));
    assert!(text.contains("marketfeed_venue_unknown_messages_total{id=\"syn\"} 1"));
    assert!(text.contains("marketfeed_venue_checksum_mismatches_total{id=\"syn\"} 2"));
    assert!(text.contains("marketfeed_venue_book_resynchronizations_total{id=\"syn\"} 3"));
    assert!(text.contains("marketfeed_venue_queue_overflows_total{id=\"syn\"} 4"));
    assert!(text.contains("marketfeed_venue_action_buffer_overflows_total{id=\"syn\"} 5"));
    assert!(text.contains("marketfeed_venue_valid_books{id=\"syn\"} 6"));
    assert!(text.contains("marketfeed_venue_queue_occupancy{id=\"syn\"} 7"));
    assert!(text.contains("marketfeed_venue_batch_queue_capacity{id=\"syn\"} 8"));
    assert!(text.contains("marketfeed_venue_system_queue_occupancy{id=\"syn\"} 9"));
    assert!(text.contains("marketfeed_venue_system_queue_capacity{id=\"syn\"} 10"));
    assert!(text.contains("marketfeed_venue_live{id=\"syn\"} 0"));
    assert!(text.contains("# TYPE marketfeed_frame_to_event_latency_seconds histogram"));
    assert!(text.contains("marketfeed_frame_to_event_latency_seconds_count 1"));
    assert!(text.contains("# TYPE marketfeed_parse_duration_seconds histogram"));
    assert!(text.contains("marketfeed_parse_duration_seconds_count 1"));
    assert!(text.contains("# TYPE marketfeed_rest_latency_seconds histogram"));
    assert!(text.contains("marketfeed_rest_latency_seconds_count 1"));
    assert!(text.contains("# TYPE marketfeed_sink_write_latency_seconds histogram"));
    assert!(text.contains("marketfeed_sink_write_latency_seconds_count 1"));
    assert!(text.contains("marketfeed_venue_frame_to_event_latency_seconds_bucket{id=\"syn\",le=\"0.0001\"} 1"));
    assert!(text.contains("marketfeed_venue_frame_to_event_latency_seconds_count{id=\"syn\"} 1"));
    assert!(text.contains("marketfeed_venue_parse_duration_seconds_bucket{id=\"syn\",le=\"0.0001\"} 1"));
    assert!(text.contains("marketfeed_venue_parse_duration_seconds_count{id=\"syn\"} 1"));
    assert!(text.contains("marketfeed_venue_rest_latency_seconds_bucket{id=\"syn\",le=\"0.025\"} 1"));
    assert!(text.contains("marketfeed_venue_rest_latency_seconds_count{id=\"syn\"} 1"));
    assert!(text.contains("marketfeed_venue_sink_write_latency_seconds_bucket{id=\"syn\",le=\"0.0005\"} 1"));
    assert!(text.contains("marketfeed_venue_sink_write_latency_seconds_count{id=\"syn\"} 1"));
}

#[test]
fn metrics_start_with_the_process_families_in_order() {
    let text = prometheus_text(&gauges(), &Vec::new(), "", &Vec::new());
    assert!(text.starts_with(
        "# HELP marketfeed_up 1 if process/supervisor is live\n# TYPE marketfeed_up gauge\nmarketfeed_up 0\n\
         # HELP marketfeed_ready 1 if readiness policy is satisfied\n# TYPE marketfeed_ready gauge\nmarketfeed_ready 0\n"
    ));
    assert!(text.contains("marketfeed_process_start_time_seconds 1700000000\n"));
    assert!(text.ends_with(
        "# HELP marketfeed_venue_sink_write_latency_seconds Per-venue configured sink forward-drain latency\n\
         # TYPE marketfeed_venue_sink_write_latency_seconds histogram\n"
    ));
}

#[test]
fn aggregate_wraps_sums_and_keeps_the_largest_occupancy() {
    let mut a = zero_counters();
    a.frames_received = u64::MAX;
    a.batch_queue_occupancy = 3;
    a.batch_queue_capacity = 10;
    let mut b = zero_counters();
    b.frames_received = 2;
    b.batch_queue_occupancy = 5;
    b.batch_queue_capacity = 20;
    let samples = vec![
        VenueSample { id: "a".into(), counters: a, frame_latency: String::new(), parse_latency: String::new(), rest_latency: String::new(), sink_latency: String::new() },
        VenueSample { id: "b".into(), counters: b, frame_latency: String::new(), parse_latency: String::new(), rest_latency: String::new(), sink_latency: String::new() },
    ];
    let agg = aggregate_counters(&samples);
    assert_eq!(agg.frames_received, 1);
    assert_eq!(agg.batch_queue_occupancy, 5);
    assert_eq!(agg.batch_queue_capacity, 30);
}

#[test]
fn exposition_has_one_liveness_line_per_venue() {
    let mut g = gauges();
    g.live = true;
    g.venues_configured = 3;
    let flags = vec![("a".to_string(), true), ("b\"x".to_string(), false), ("c".to_string(), true)];
    let text = prometheus_text(&g, &flags, "", &Vec::new());
    assert!(text.contains("\nmarketfeed_up 1\n"));
    assert!(text.contains("\nmarketfeed_ready 0\n"));
    assert!(text.contains("\nmarketfeed_venues_configured 3\n"));
    let live: Vec<&str> = text.lines().filter(|l| l.starts_with("marketfeed_venue_live{")).collect();
    assert_eq!(
        live,
        vec![
            "marketfeed_venue_live{id=\"a\"} 1",
            "marketfeed_venue_live{id=\"b\\\"x\"} 0",
            "marketfeed_venue_live{id=\"c\"} 1",
        ]
    );
}
