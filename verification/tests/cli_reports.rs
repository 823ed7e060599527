use marketfeed_daemon::cli::{benchmark_line, format_plan, parse_repeatedly, scan_bytes};
use marketfeed_daemon::config::{
    parse_bytes, parse_duration, DaemonConfig, EngineConfig, PrivateConfig, ReadinessConfig, RecordingConfig,
    TelemetryConfig,
};
use marketfeed_daemon::venue_config::VenueConfig;
use std::time::Duration;

fn venue(id: &str, adapter: &str) -> VenueConfig {
    VenueConfig {
        id: id.to_string(),
        adapter: adapter.to_string(),
        segment: None,
        required: true,
        transport: None,
        symbols: vec!["BTCUSDT".to_string()],
        channels: vec!["trades".to_string()],
        api_key: None,
        api_secret: None,
        passphrase: None,
    }
}

fn two_venues() -> DaemonConfig {
    DaemonConfig {
        engine: EngineConfig::default(),
        telemetry: TelemetryConfig::default(),
        readiness: ReadinessConfig::default(),
        recording: RecordingConfig::default(),
        private: PrivateConfig::default(),
        venues: vec![venue("bn", "binance"), venue("okx-spot", "okx")],
        sinks: Vec::new(),
    }
}

#[test]
fn plan_report_lists_each_venue_and_its_sessions() {
    let cfg = two_venues();
    let plans = vec![
        Ok(vec!["endpoint=wss://a subs=2".to_string(), "endpoint=wss://b subs=1".to_string()]),
        Ok(vec![]),
    ];
    let out = format_plan(&cfg, &plans).unwrap();
    assert_eq!(
        out,
        "venues=2\nvenue=bn adapter=binance sessions=2\n  session[0] endpoint=wss://a subs=2\n  session[1] endpoint=wss://b subs=1\nvenue=okx-spot adapter=okx sessions=0\n"
    );
}

#[test]
fn plan_report_fails_with_the_first_failing_venue() {
    let cfg = two_venues();
    let plans = vec![Err("bn: no catalog".to_string()), Err("okx: unreachable".to_string())];
    assert_eq!(format_plan(&cfg, &plans), Err("bn: no catalog".to_string()));
    let plans = vec![Ok(vec!["endpoint=wss://a subs=1".to_string()]), Err("okx: unreachable".to_string())];
    assert_eq!(format_plan(&cfg, &plans), Err("okx: unreachable".to_string()));
}

#[test]
fn benchmark_runs_at_least_once_and_counts_every_pass() {
    assert_eq!(parse_repeatedly(br#"{"a": [1, 2]}"#, 0), (1, 1));
    assert_eq!(parse_repeatedly(b"not json at all", 3), (3, 3));
    assert_eq!(parse_repeatedly(br#"{"a": 1}"#, 5), (5, 5));
    assert_eq!(scan_bytes(&[0b1010, 0b0110, 0b0001]), 0b1101);
    assert_eq!(scan_bytes(&[]), 0);
}

#[test]
fn benchmark_line_reports_time_per_iteration() {
    assert_eq!(
        benchmark_line("fixtures/book.json", 2048, 4, 4, 1_002),
        "fixture=fixtures/book.json bytes=2048 iterations=4 ok=4 elapsed_ns=1002 ns_per_iter=250"
    );
}

#[test]
fn sizes_read_with_units_in_any_case_and_saturate() {
    assert_eq!(parse_bytes("  5KiB  ").unwrap(), 5 * 1024);
    assert_eq!(parse_bytes("\t3Mb\n").unwrap(), 3_000_000);
    assert_eq!(parse_bytes(" 2gB ").unwrap(), 2_000_000_000);
    assert_eq!(parse_bytes("7B").unwrap(), 7);
    assert_eq!(parse_bytes("18446744073709551615GiB").unwrap(), u64::MAX);
}

#[test]
fn durations_read_with_units_and_report_errors() {
    assert_eq!(parse_duration(" 2H ").unwrap(), Duration::from_secs(7_200));
    assert_eq!(parse_duration("90s").unwrap(), Duration::from_secs(90));
    assert_eq!(parse_duration("45").unwrap(), Duration::from_secs(45));
    assert_eq!(parse_duration("   "), Err("empty".to_string()));
    for bad in ["1d", "1.5h", "500ms"] {
        assert!(parse_duration(bad).unwrap_err().starts_with("invalid duration"), "{bad}");
    }
}
