use std::time::Duration;

use marketfeed_daemon::config::{
    default_overflow, default_sink_capacity, default_true, parse_bytes, parse_duration, ConfigError,
    DaemonConfig, EngineConfig, PrivateBinanceSpotConfig, PrivateConfig, PrivateOkxSpotConfig,
    ReadinessConfig, RecordingConfig, TelemetryConfig,
};
use marketfeed_daemon::queue::OverflowPolicy;
use marketfeed_daemon::sink_config::{SinkConfig, SinkKind};
use marketfeed_daemon::validate::{AddrCheck, AddressChecks};
use marketfeed_daemon::venue_config::{TransportMode, VenueConfig, VenueKind};

fn base() -> DaemonConfig {
    DaemonConfig {
        engine: EngineConfig::default(),
        telemetry: TelemetryConfig::default(),
        readiness: ReadinessConfig::default(),
        recording: RecordingConfig::default(),
        private: PrivateConfig::default(),
        venues: Vec::new(),
        sinks: Vec::new(),
    }
}

fn strings(items: &[&str]) -> Vec<String> {
    items.iter().map(|s| s.to_string()).collect()
}

fn venue(id: &str, adapter: &str, symbols: &[&str], channels: &[&str]) -> VenueConfig {
    VenueConfig {
        id: id.to_string(),
        adapter: adapter.to_string(),
        segment: None,
        required: default_true(),
        transport: None,
        symbols: strings(symbols),
        channels: strings(channels),
        api_key: None,
        api_secret: None,
        passphrase: None,
    }
}

fn segmented(id: &str, adapter: &str, segment: &str, symbols: &[&str], channels: &[&str]) -> VenueConfig {
    let mut v = venue(id, adapter, symbols, channels);
    v.segment = Some(segment.to_string());
    v
}

fn synthetic_demo() -> VenueConfig {
    venue("synthetic-demo", "synthetic", &[], &[])
}

fn sink(sink_type: &str) -> SinkConfig {
    SinkConfig {
        id: None,
        required: false,
        sink_type: sink_type.to_string(),
        path: None,
        address: None,
        topic: None,
        subject: None,
        capacity: default_sink_capacity(),
        overflow: default_overflow(),
        wal_limit: None,
    }
}

/// Validates with every address (bind and sinks) parsed as a loopback socket address.
fn check(cfg: &DaemonConfig) -> Result<(), ConfigError> {
    let checks = AddressChecks {
        bind: AddrCheck::Loopback,
        sinks: cfg.sinks.iter().map(|_| AddrCheck::Loopback).collect(),
    };
    cfg.validate(&checks)
}

fn err_text(cfg: &DaemonConfig) -> String {
    match check(cfg) {
        Ok(()) => panic!("expected a validation error"),
        Err(e) => e.message(),
    }
}

#[test]
fn rejects_block_with_deadline_for_daemon_owned_queues() {
    let mut cfg = base();
    let mut s = sink("memory");
    s.capacity = 1;
    s.overflow = "block_with_deadline".to_string();
    cfg.sinks.push(s);
    cfg.venues.push(synthetic_demo());
    assert!(err_text(&cfg).contains("block_with_deadline"));

    let mut cfg = base();
    cfg.recording.raw.enabled = true;
    cfg.recording.raw.directory = "./raw".to_string();
    cfg.recording.raw.segment_size = "1MiB".to_string();
    cfg.recording.raw.segment_duration = "1m".to_string();
    cfg.recording.raw.queue_capacity = 1;
    cfg.recording.raw.overflow = "block".to_string();
    cfg.recording.raw.min_free_space = "1MiB".to_string();
    cfg.venues.push(synthetic_demo());
    assert!(err_text(&cfg).contains("block_with_deadline"));
}

#[test]
fn accepts_memory_logging_and_file_sinks() {
    let mut cfg = base();
    let mut s = sink("memory");
    s.id = Some("probe".to_string());
    s.capacity = 32;
    s.overflow = "drop_oldest".to_string();
    cfg.sinks.push(s);
    let mut s = sink("logging");
    s.capacity = 8;
    s.overflow = "drop_newest".to_string();
    cfg.sinks.push(s);
    for (t, p) in [("file", "./events.log"), ("protobuf-file", "./events.mfpe"), ("protobuf-file-bin", "./events.mfpeb")] {
        let mut s = sink(t);
        s.path = Some(p.to_string());
        s.capacity = 16;
        s.overflow = "fail_engine".to_string();
        cfg.sinks.push(s);
    }
    let mut s = sink("udp");
    s.address = Some("127.0.0.1:19090".to_string());
    s.capacity = 16;
    s.overflow = "drop_newest".to_string();
    cfg.sinks.push(s);
    let mut s = sink("kafka");
    s.address = Some("127.0.0.1:9092".to_string());
    s.topic = Some("marketfeed".to_string());
    s.capacity = 16;
    s.overflow = "drop_newest".to_string();
    cfg.sinks.push(s);
    let mut s = sink("nats");
    s.address = Some("127.0.0.1:4222".to_string());
    s.subject = Some("marketfeed.events".to_string());
    s.capacity = 16;
    s.overflow = "drop_newest".to_string();
    cfg.sinks.push(s);
    cfg.venues.push(synthetic_demo());
    assert!(check(&cfg).is_ok());

    assert_eq!(cfg.sinks.len(), 8);
    assert_eq!(cfg.sinks[0].kind().unwrap(), SinkKind::Memory);
    assert_eq!(cfg.sinks[0].capacity, 32);
    assert_eq!(cfg.sinks[0].overflow_policy().unwrap(), OverflowPolicy::DropOldest);
    assert_eq!(cfg.sinks[1].kind().unwrap(), SinkKind::Logging);
    assert_eq!(cfg.sinks[2].kind().unwrap(), SinkKind::File);
    assert_eq!(cfg.sinks[2].file_path().unwrap(), "./events.log");
    assert_eq!(cfg.sinks[3].kind().unwrap(), SinkKind::ProtobufFile);
    assert_eq!(cfg.sinks[3].file_path().unwrap(), "./events.mfpe");
    assert_eq!(cfg.sinks[4].kind().unwrap(), SinkKind::ProtobufFileBin);
    assert_eq!(cfg.sinks[4].file_path().unwrap(), "./events.mfpeb");
    assert_eq!(cfg.sinks[5].kind().unwrap(), SinkKind::Udp);
    assert_eq!(cfg.sinks[5].address_text().unwrap(), "127.0.0.1:19090");
    assert_eq!(cfg.sinks[6].kind().unwrap(), SinkKind::Kafka);
    assert_eq!(cfg.sinks[6].kafka_topic().unwrap(), "marketfeed");
    assert_eq!(cfg.sinks[7].kind().unwrap(), SinkKind::Nats);
    assert_eq!(cfg.sinks[7].nats_subject().unwrap(), "marketfeed.events");
}

#[test]
fn rejects_empty_or_duplicate_sink_ids() {
    let mut cfg = base();
    let mut s = sink("memory");
    s.id = Some(" ".to_string());
    cfg.sinks.push(s);
    assert!(err_text(&cfg).contains("id must be non-empty"));

    let mut cfg = base();
    let mut s = sink("memory");
    s.id = Some("primary".to_string());
    cfg.sinks.push(s);
    let mut s = sink("logging");
    s.id = Some("primary".to_string());
    cfg.sinks.push(s);
    assert!(err_text(&cfg).contains("duplicate sink id"));
}

#[test]
fn sink_required_defaults_false_and_can_be_enabled() {
    let mut cfg = base();
    let mut s = sink("memory");
    s.id = Some("primary".to_string());
    s.required = true;
    s.overflow = "fail_engine".to_string();
    cfg.sinks.push(s);
    assert!(check(&cfg).is_ok());
    assert!(cfg.sinks[0].required);

    let mut cfg = base();
    cfg.sinks.push(sink("memory"));
    assert!(check(&cfg).is_ok());
    assert!(!cfg.sinks[0].required);
}

#[test]
fn required_sink_needs_stable_id_and_fail_engine_policy() {
    let mut cfg = base();
    let mut s = sink("memory");
    s.required = true;
    s.overflow = "fail_engine".to_string();
    cfg.sinks.push(s);
    let text = err_text(&cfg);
    assert!(text.contains("required sink"));
    assert!(text.contains("explicit id"));

    let mut cfg = base();
    let mut s = sink("memory");
    s.id = Some("primary".to_string());
    s.required = true;
    s.overflow = "drop_newest".to_string();
    cfg.sinks.push(s);
    let text = err_text(&cfg);
    assert!(text.contains("required sink"));
    assert!(text.contains("fail_engine"));
}

#[test]
fn rejects_udp_sink_without_address() {
    let mut cfg = base();
    cfg.sinks.push(sink("udp"));
    cfg.venues.push(synthetic_demo());
    assert!(check(&cfg).is_err());
}

#[test]
fn rejects_standalone_spill_wal_sink() {
    let mut cfg = base();
    let mut s = sink("spill-wal");
    s.path = Some("./spill.wal".to_string());
    s.wal_limit = Some("64MiB".to_string());
    s.capacity = 64;
    s.overflow = "spill_to_disk".to_string();
    cfg.sinks.push(s);
    cfg.venues.push(synthetic_demo());
    let text = err_text(&cfg);
    assert!(text.contains("not a standalone delivery sink"));
    assert!(text.contains("recovery consumer"));
}

#[test]
fn rejects_spill_wal_without_limit_or_wrong_policy() {
    let mut cfg = base();
    let mut s = sink("spill-wal");
    s.path = Some("./spill.wal".to_string());
    s.overflow = "spill_to_disk".to_string();
    cfg.sinks.push(s);
    cfg.venues.push(synthetic_demo());
    assert!(check(&cfg).is_err());

    let mut cfg = base();
    let mut s = sink("spill-wal");
    s.path = Some("./spill.wal".to_string());
    s.wal_limit = Some("1MiB".to_string());
    s.overflow = "fail_engine".to_string();
    cfg.sinks.push(s);
    cfg.venues.push(synthetic_demo());
    assert!(check(&cfg).is_err());
}

#[test]
fn rejects_file_sink_without_path() {
    let mut cfg = base();
    cfg.sinks.push(sink("file"));
    cfg.venues.push(synthetic_demo());
    assert!(check(&cfg).is_err());
}

#[test]
fn rejects_unknown_sink_type_and_zero_capacity() {
    let mut cfg = base();
    cfg.sinks.push(sink("mystery-bus"));
    cfg.venues.push(synthetic_demo());
    assert!(check(&cfg).is_err());

    let mut cfg = base();
    let mut s = sink("memory");
    s.capacity = 0;
    cfg.sinks.push(s);
    cfg.venues.push(synthetic_demo());
    assert!(check(&cfg).is_err());
}

#[test]
fn rejects_unbounded_queue_capacities_and_nul_sink_ids() {
    let mut recording = base();
    recording.recording.raw.enabled = true;
    recording.recording.raw.queue_capacity = 1048577;

    let mut sink_queue = base();
    let mut s = sink("memory");
    s.capacity = 1048577;
    sink_queue.sinks.push(s);

    let mut thread_name = base();
    let mut s = sink("memory");
    s.id = Some("bad\u{0000}id".to_string());
    thread_name.sinks.push(s);

    for (name, cfg, expected) in [
        ("recording queue", recording, "recording.raw.queue_capacity must be <="),
        ("sink queue", sink_queue, "sinks[0].capacity must be <="),
        ("sink thread name", thread_name, "must not contain NUL"),
    ] {
        let error = err_text(&cfg);
        assert!(error.contains(expected), "{name}: {error}");
    }
}

#[test]
fn rejects_excessive_sink_count_and_aggregate_queue_reservations() {
    let mut cfg = base();
    for _ in 0..=64 {
        let mut s = sink("memory");
        s.capacity = 1;
        cfg.sinks.push(s);
    }
    let error = err_text(&cfg);
    assert!(error.contains("at most 64 entries"), "{error}");

    let mut cfg = base();
    for _ in 0..2 {
        let mut s = sink("memory");
        s.capacity = 200000;
        cfg.sinks.push(s);
    }
    let error = err_text(&cfg);
    assert!(error.contains("eager queue slots"), "{error}");

    let mut cfg = base();
    cfg.recording.raw.enabled = true;
    cfg.recording.raw.queue_capacity = 600000;
    let error = err_text(&cfg);
    assert!(error.contains("eager queue slots"), "{error}");
}

#[test]
fn rejects_kafka_without_topic_and_nats_without_subject() {
    let mut cfg = base();
    let mut s = sink("kafka");
    s.address = Some("127.0.0.1:9092".to_string());
    cfg.sinks.push(s);
    cfg.venues.push(synthetic_demo());
    assert!(check(&cfg).is_err());

    let mut cfg = base();
    let mut s = sink("nats");
    s.address = Some("127.0.0.1:4222".to_string());
    cfg.sinks.push(s);
    cfg.venues.push(synthetic_demo());
    assert!(check(&cfg).is_err());
}

#[test]
fn accepts_minimal_loopback_config() {
    let mut cfg = base();
    cfg.venues.push(venue("binance-spot", "binance", &["BTCUSDT"], &["trades"]));
    assert!(check(&cfg).is_ok());
    assert_eq!(cfg.venues[0].resolved_kind().unwrap(), VenueKind::BinanceSpot);
}

#[test]
fn rejects_ambiguous_live_venue_subscriptions() {
    let mut duplicate_ids = base();
    duplicate_ids.venues.push(venue("binance-spot", "binance", &["BTCUSDT"], &["trades"]));
    duplicate_ids.venues.push(venue("binance-spot", "binance", &["ETHUSDT"], &["quote"]));
    let mut padded = base();
    padded.venues.push(venue(" binance-spot ", "binance", &["BTCUSDT"], &["trades"]));
    let mut no_symbols = base();
    no_symbols.venues.push(venue("binance-spot", "binance", &[], &["trades"]));
    let mut no_channels = base();
    no_channels.venues.push(venue("binance-spot", "binance", &["BTCUSDT"], &[]));
    let mut dup_symbols = base();
    dup_symbols.venues.push(venue("binance-spot", "binance", &["BTCUSDT", "BTCUSDT"], &["trades"]));
    let mut aliases = base();
    aliases.venues.push(venue("binance-spot", "binance", &["BTCUSDT"], &["quote", "ticker"]));

    let cases = [
        ("duplicate venue IDs", duplicate_ids, "duplicate venue id \"binance-spot\""),
        (
            "whitespace-padded venue ID",
            padded,
            "venues[0].id must not contain leading or trailing whitespace: \" binance-spot \"",
        ),
        ("empty symbols", no_symbols, "venue binance-spot: symbols must be non-empty"),
        ("empty channels", no_channels, "venue binance-spot: channels must be non-empty"),
        ("duplicate symbols", dup_symbols, "venue binance-spot: duplicate symbol \"BTCUSDT\""),
        (
            "semantic channel aliases",
            aliases,
            "venue binance-spot: duplicate channel \"ticker\" (canonical \"quote\")",
        ),
    ];
    for (name, cfg, expected) in cases {
        let error = err_text(&cfg);
        assert!(error.contains(expected), "{name}: {error}");
    }
}

#[test]
fn rejects_ambiguous_symbols_and_channels() {
    let cases = [
        ("blank symbol", &[""][..], &["trades"][..], "venue binance-spot: symbols contains blank value \"\""),
        (
            "whitespace-padded symbol",
            &[" BTCUSDT "][..],
            &["trades"][..],
            "venue binance-spot: symbol must not contain leading or trailing whitespace: \" BTCUSDT \"",
        ),
        ("blank channel", &["BTCUSDT"][..], &[""][..], "venue binance-spot: channels contains blank value \"\""),
        (
            "whitespace-padded channel",
            &["BTCUSDT"][..],
            &[" trades "][..],
            "venue binance-spot: channel must not contain leading or trailing whitespace: \" trades \"",
        ),
    ];
    for (name, symbols, channels, expected) in cases {
        let mut cfg = base();
        cfg.venues.push(venue("binance-spot", "binance", symbols, channels));
        let error = err_text(&cfg);
        assert!(error.contains(expected), "{name}: {error}");
    }
}

#[test]
fn accepts_symbols_and_channels() {
    let mut cfg = base();
    cfg.venues.push(venue("binance-spot", "binance", &["BTCUSDT", "ETHUSDT"], &["trades", "quote", "l2"]));
    assert!(check(&cfg).is_ok());
    assert_eq!(cfg.venues[0].symbols.len(), 2);
    assert!(cfg.venues[0].wants_l2());
}

#[test]
fn rejects_unknown_channel() {
    let mut cfg = base();
    cfg.venues.push(venue("binance-spot", "binance", &["BTCUSDT"], &["nope"]));
    let error = err_text(&cfg);
    assert!(error.contains(r#"unknown channel "nope""#), "{error}");
}

#[test]
fn parses_recording_sizes() {
    let mut cfg = base();
    cfg.recording.raw.enabled = true;
    cfg.recording.raw.directory = "./raw".to_string();
    cfg.recording.raw.segment_size = "64MiB".to_string();
    cfg.recording.raw.segment_duration = "15m".to_string();
    cfg.recording.raw.queue_capacity = 1024;
    cfg.recording.raw.overflow = "drop_oldest".to_string();
    cfg.recording.raw.min_free_space = "1GiB".to_string();
    assert!(check(&cfg).is_ok());
    assert_eq!(cfg.recording.raw.segment_size_bytes().unwrap(), 64 * 1024 * 1024);
    assert_eq!(cfg.recording.raw.segment_duration().unwrap(), Duration::from_secs(15 * 60));
    assert_eq!(cfg.recording.raw.overflow_policy().unwrap(), OverflowPolicy::DropOldest);
}

#[test]
fn synthetic_defaults_and_rejects_live_transport() {
    let mut cfg = base();
    cfg.venues.push(synthetic_demo());
    assert!(check(&cfg).is_ok());
    assert_eq!(cfg.venues[0].resolved_transport(), TransportMode::Memory);

    let mut cfg = base();
    let mut v = synthetic_demo();
    v.transport = Some(TransportMode::Live);
    cfg.venues.push(v);
    assert!(check(&cfg).is_err());
}

#[test]
fn rejects_non_loopback_bind() {
    let mut cfg = base();
    cfg.telemetry.bind = "0.0.0.0:9108".to_string();
    let checks = AddressChecks { bind: AddrCheck::NonLoopback, sinks: Vec::new() };
    let err = cfg.validate(&checks).unwrap_err();
    assert!(matches!(err, ConfigError::Validation(_)));
}

#[test]
fn rejects_unknown_adapter_and_impossible_readiness() {
    let mut cfg = base();
    cfg.venues.push(venue("x", "nope", &[], &[]));
    assert!(check(&cfg).is_err());

    let mut cfg = base();
    cfg.readiness.min_live_sessions = 1;
    assert!(check(&cfg).is_err());
}

#[test]
fn accepts_all_known_adapters() {
    let mut cfg = base();
    cfg.venues.push(synthetic_demo());
    cfg.venues.push(segmented("binance-spot", "binance", "spot", &["BTCUSDT"], &["trades", "quote", "l2"]));
    cfg.venues.push(segmented("binance-usdm", "binance", "usdm", &["BTCUSDT"], &["trades", "funding"]));
    cfg.venues.push(segmented("binance-coinm", "binance", "coinm", &["BTCUSD_PERP"], &["trades", "mark", "funding"]));
    cfg.venues.push(segmented("okx-spot", "okx", "spot", &["BTC-USDT"], &["trades", "ticker"]));
    cfg.venues.push(segmented("okx-swap", "okx", "swap", &["BTC-USDT-SWAP"], &["trades", "l2", "funding"]));
    cfg.venues.push(segmented("okx-futures", "okx", "futures", &["BTC-USDT-250926"], &["trades", "l2"]));
    cfg.venues.push(segmented("bybit-linear", "bybit", "linear", &["BTCUSDT"], &["trades", "l2"]));
    cfg.venues.push(segmented("bybit-spot", "bybit", "spot", &["BTCUSDT"], &["trades"]));
    cfg.venues.push(segmented("kraken-spot", "kraken", "spot", &["BTC/USD"], &["trades", "quote"]));
    cfg.venues.push(venue("deribit", "deribit", &["BTC-PERPETUAL"], &["trades", "ticker", "mark"]));
    cfg.venues.push(venue("bitstamp", "bitstamp", &["btcusd"], &["trades", "quote", "l2"]));
    cfg.venues.push(venue("gemini", "gemini", &["BTCUSD"], &["trades", "quote", "l2"]));
    cfg.venues.push(segmented("coinbase-spot", "coinbase", "spot", &["BTC-USD"], &["trades", "quote", "l2"]));
    cfg.venues.push(segmented("coinbase-adv", "coinbase", "advanced", &["BTC-USD"], &["candles"]));
    cfg.venues.push(venue("bitfinex", "bitfinex", &["tBTCUSD"], &["trades", "quote", "l2"]));
    assert!(check(&cfg).is_ok());
    assert_eq!(cfg.venues.len(), 16);
    assert_eq!(cfg.venues[3].resolved_kind().unwrap(), VenueKind::BinanceCoinm);
    assert_eq!(cfg.venues[4].resolved_kind().unwrap(), VenueKind::OkxSpot);
    assert_eq!(cfg.venues[5].resolved_kind().unwrap(), VenueKind::OkxSwap);
    assert_eq!(cfg.venues[6].resolved_kind().unwrap(), VenueKind::OkxFutures);
    assert_eq!(cfg.venues[7].resolved_kind().unwrap(), VenueKind::BybitLinear);
    assert_eq!(cfg.venues[8].resolved_kind().unwrap(), VenueKind::BybitSpot);
    assert_eq!(cfg.venues[9].resolved_kind().unwrap(), VenueKind::KrakenSpot);
    assert_eq!(cfg.venues[10].resolved_kind().unwrap(), VenueKind::Deribit);
    assert_eq!(cfg.venues[11].resolved_kind().unwrap(), VenueKind::Bitstamp);
    assert_eq!(cfg.venues[12].resolved_kind().unwrap(), VenueKind::Gemini);
    assert_eq!(cfg.venues[13].resolved_kind().unwrap(), VenueKind::CoinbaseSpot);
    assert_eq!(cfg.venues[14].resolved_kind().unwrap(), VenueKind::CoinbaseAdvanced);
    assert_eq!(cfg.venues[15].resolved_kind().unwrap(), VenueKind::Bitfinex);
}

#[test]
fn coinbase_adv_segment_and_id_inference() {
    let mut cfg = base();
    cfg.venues.push(venue("coinbase-adv", "coinbase", &["BTC-USD"], &["candles"]));
    assert!(check(&cfg).is_ok());
    assert_eq!(cfg.venues[0].resolved_kind().unwrap(), VenueKind::CoinbaseAdvanced);
}

#[test]
fn bybit_inverse_segment_and_id_inference() {
    let mut cfg = base();
    cfg.venues.push(segmented("bybit-inv", "bybit", "inverse", &["BTCUSD"], &["trades", "l2"]));
    cfg.venues.push(venue("bybit-inverse", "bybit", &["ETHUSD"], &["trades"]));
    assert!(check(&cfg).is_ok());
    assert_eq!(cfg.venues[0].resolved_kind().unwrap(), VenueKind::BybitInverse);
    assert_eq!(cfg.venues[1].resolved_kind().unwrap(), VenueKind::BybitInverse);
}

#[test]
fn binance_coinm_inferred_from_id_without_segment() {
    let mut cfg = base();
    cfg.venues.push(venue("binance-coinm", "binance", &["BTCUSD_PERP"], &["trades", "funding"]));
    assert!(check(&cfg).is_ok());
    assert_eq!(cfg.venues[0].resolved_kind().unwrap(), VenueKind::BinanceCoinm);
}

#[test]
fn rejects_memory_transport_for_live_venues() {
    let mut cfg = base();
    let mut v = venue("okx-spot", "okx", &[], &[]);
    v.transport = Some(TransportMode::Memory);
    cfg.venues.push(v);
    assert!(check(&cfg).is_err());
}

#[test]
fn parse_bytes_and_duration_helpers() {
    assert_eq!(parse_bytes("1KiB").unwrap(), 1024);
    assert_eq!(parse_duration("2m").unwrap(), Duration::from_secs(120));
}

#[test]
fn rejects_retired_private_binance_listen_key_flow() {
    let mut cfg = base();
    cfg.private.binance_spot.enabled = true;
    cfg.venues.push(synthetic_demo());
    let message = err_text(&cfg);
    assert!(message.contains("Binance retired the listen-key"));
    assert!(message.contains("userDataStream.subscribe"));

    let leaked = PrivateBinanceSpotConfig {
        enabled: true,
        api_key: Some("live-key-must-not-appear".into()),
        api_secret: Some("live-secret-must-not-appear".into()),
        ..PrivateBinanceSpotConfig::default()
    };
    let dbg = leaked.redacted_debug();
    assert!(dbg.contains("<redacted>"));
    assert!(!dbg.contains("live-key"));
    assert!(!dbg.contains("live-secret"));
}

#[test]
fn rejects_private_secrets_in_toml() {
    let mut configs = Vec::new();
    let mut c = base();
    c.private.binance_spot.enabled = true;
    c.private.binance_spot.api_key = Some("must-not-load".into());
    configs.push(c);
    let mut c = base();
    c.private.binance_spot.enabled = true;
    c.private.binance_spot.api_secret = Some("must-not-load".into());
    configs.push(c);
    let mut c = base();
    c.private.binance_spot.enabled = true;
    c.private.binance_spot.binance_api_key = Some("must-not-load".into());
    configs.push(c);
    let mut c = base();
    c.private.okx_spot.enabled = true;
    c.private.okx_spot.api_key = Some("must-not-load".into());
    configs.push(c);
    let mut c = base();
    c.private.okx_spot.enabled = true;
    c.private.okx_spot.passphrase = Some("must-not-load".into());
    configs.push(c);
    let mut c = base();
    c.private.bybit_spot.enabled = true;
    c.private.bybit_spot.bybit_api_secret = Some("must-not-load".into());
    configs.push(c);
    for cfg in configs {
        let err = check(&cfg).unwrap_err();
        assert!(
            matches!(err, ConfigError::Validation(ref m) if m.contains("secrets must not")),
            "expected secrets rejection, got {err:?}"
        );
    }
}

#[test]
fn rejects_private_okx_bybit_without_a_daemon_account_sink() {
    let mut cfg = base();
    cfg.private.okx_spot.enabled = true;
    cfg.private.bybit_spot.enabled = true;
    cfg.venues.push(synthetic_demo());
    let error = err_text(&cfg);
    assert!(error.contains("account-event sink"));
    assert!(error.contains("readiness/liveness"));
    assert!(error.contains("reconnect"));
    let leaked = PrivateOkxSpotConfig {
        enabled: true,
        api_key: Some("okx-key-must-not-appear".into()),
        passphrase: Some("okx-pass-must-not-appear".into()),
        ..PrivateOkxSpotConfig::default()
    };
    let dbg = leaked.redacted_debug();
    assert!(dbg.contains("<redacted>"));
    assert!(!dbg.contains("okx-key"));
    assert!(!dbg.contains("okx-pass"));
}

#[test]
fn coinbase_intl_enable_only_no_secrets() {
    let mut cfg = base();
    cfg.venues.push(segmented("coinbase-intl", "coinbase", "intl", &["BTC-PERP"], &["trades", "quote"]));
    assert!(check(&cfg).is_ok());
    assert_eq!(cfg.venues[0].resolved_kind().unwrap(), VenueKind::CoinbaseIntl);
    assert!(!cfg.venues[0].has_toml_secrets());
}

#[test]
fn rejects_coinbase_intl_secrets_in_toml() {
    for field in 0..3 {
        let mut v = segmented("coinbase-intl", "coinbase", "intl", &[], &[]);
        match field {
            0 => v.api_key = Some("must-not-load".into()),
            1 => v.api_secret = Some("must-not-load".into()),
            _ => v.passphrase = Some("must-not-load".into()),
        }
        let mut cfg = base();
        cfg.venues.push(v);
        let err = check(&cfg).unwrap_err();
        assert!(
            matches!(err, ConfigError::Validation(ref m) if m.contains("coinbase-intl secrets must not")),
            "expected coinbase-intl secrets rejection, got {err:?}"
        );
    }
}

#[test]
fn rejects_coinbase_exchange_secrets_in_toml() {
    for field in 0..3 {
        let mut v = segmented("coinbase-spot", "coinbase", "exchange", &["BTC-USD"], &["l2"]);
        match field {
            0 => v.api_key = Some("must-not-load".into()),
            1 => v.api_secret = Some("must-not-load".into()),
            _ => v.passphrase = Some("must-not-load".into()),
        }
        let mut cfg = base();
        cfg.venues.push(v);
        let error = check(&cfg).expect_err("Coinbase Exchange secrets must be environment-only");
        assert!(
            matches!(
                error,
                ConfigError::Validation(ref message)
                    if message.contains("coinbase-spot secrets must not")
                        && message.contains("COINBASE_EXCHANGE_API_KEY")
                        && message.contains("COINBASE_EXCHANGE_API_SECRET")
                        && message.contains("COINBASE_EXCHANGE_API_PASSPHRASE")
            ),
            "unexpected error: {error:?}"
        );
    }
}

#[test]
fn coinbase_intl_segment_and_id_inference() {
    let mut cfg = base();
    cfg.venues.push(venue("coinbase-intl", "coinbase", &["BTC-PERP"], &["trades"]));
    assert!(check(&cfg).is_ok());
    assert_eq!(cfg.venues[0].resolved_kind().unwrap(), VenueKind::CoinbaseIntl);
}

#[test]
fn venue_debug_text_redacts_credentials() {
    let mut v = venue("coinbase-spot", "coinbase", &["BTC-USD"], &["l2"]);
    v.api_key = Some("venue-key-must-not-appear".into());
    v.passphrase = Some("venue-pass-must-not-appear".into());
    let dbg = v.redacted_debug();
    assert_eq!(
        dbg,
        "VenueConfig { id: \"coinbase-spot\", adapter: \"coinbase\", segment: None, required: true, \
         transport: None, symbols: [\"BTC-USD\"], channels: [\"l2\"], api_key: Some(\"<redacted>\"), \
         api_secret: None, passphrase: Some(\"<redacted>\") }"
    );
}

#[test]
fn config_error_texts() {
    assert_eq!(ConfigError::Io("gone".into()).message(), "read config: gone");
    assert_eq!(ConfigError::Parse("bad".into()).message(), "parse TOML: bad");
    assert_eq!(ConfigError::Validation("no".into()).message(), "validation: no");
}

#[test]
fn parse_bytes_units_and_errors() {
    assert_eq!(parse_bytes("64MiB").unwrap(), 64 * 1024 * 1024);
    assert_eq!(parse_bytes("1GiB").unwrap(), 1024 * 1024 * 1024);
    assert_eq!(parse_bytes("4096").unwrap(), 4096);
    assert!(parse_bytes("lots").is_err());
    assert_eq!(parse_duration("15m").unwrap(), Duration::from_secs(900));
    assert!(parse_duration("soon").is_err());
}
