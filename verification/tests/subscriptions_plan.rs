use marketfeed_daemon::cli::{failed_required_sink, format_catalog, parse_flag_str, parse_iterations, render_plan};
use marketfeed_daemon::config::{
    DaemonConfig, EngineConfig, PrivateConfig, ReadinessConfig, RecordingConfig, TelemetryConfig,
};
use marketfeed_daemon::mailbox::SinkSnapshot;
use marketfeed_daemon::session::{require_session_specs, task_exit_error, DrainAction, SessionDrain, TaskExit};
use marketfeed_daemon::subscriptions::{
    configured_channel, expand_concrete_subscriptions, stub_catalog, Channel, ConcreteSubscription, DeliveryOptions,
};
use marketfeed_daemon::venue_config::{inverse, venue_meta, InstrumentKind, VenueConfig, VenueKind};

fn configured_venue(symbols: &[&str], channels: &[&str]) -> VenueConfig {
    VenueConfig {
        id: "binance-spot".to_string(),
        adapter: "binance".to_string(),
        segment: None,
        required: true,
        transport: None,
        symbols: symbols.iter().map(|s| s.to_string()).collect(),
        channels: channels.iter().map(|s| s.to_string()).collect(),
        api_key: None,
        api_secret: None,
        passphrase: None,
    }
}

fn plain() -> DeliveryOptions {
    DeliveryOptions { emit_book_snapshots: false, emit_book_deltas: false, emit_bbo: false }
}

#[test]
fn configured_symbols_and_channels_expand_to_concrete_set() {
    let venue = configured_venue(&["ETHUSDT", "BTCUSDT"], &["trades", "l2"]);
    let catalog = stub_catalog(&venue.symbols);
    let items = expand_concrete_subscriptions(&venue, &catalog).expect("expand");
    assert_eq!(items.len(), 4);
    assert_eq!(items[0].instrument, 1);
    assert_eq!(items[0].channel, Channel::Trades);
    assert_eq!(items[1].instrument, 1);
    assert_eq!(items[1].channel, Channel::L2Book);
    assert_eq!(items[2].instrument, 2);
    assert_eq!(items[2].channel, Channel::Trades);
    assert_eq!(items[3].instrument, 2);
    assert_eq!(items[3].channel, Channel::L2Book);
}

#[test]
fn unknown_symbol_is_rejected() {
    let venue = configured_venue(&["ETHUSDT"], &["trades"]);
    let catalog = stub_catalog(&vec!["BTCUSDT".to_string()]);
    let error = expand_concrete_subscriptions(&venue, &catalog).unwrap_err();
    let text = error.message();
    assert!(text.contains("venue binance-spot: configured symbol \"ETHUSDT\" missing from catalog"), "{text}");
}

#[test]
fn configured_channel_aliases_expand_to_expected_requests() {
    let quote_delivery = DeliveryOptions { emit_bbo: true, ..plain() };
    let l2_delivery = DeliveryOptions { emit_book_snapshots: true, emit_book_deltas: true, emit_bbo: true };
    let cases = [
        ("trades", Channel::Trades, plain()),
        ("quote", Channel::Quote, quote_delivery),
        ("ticker", Channel::Quote, quote_delivery),
        ("l2", Channel::L2Book, l2_delivery),
        ("l2_book", Channel::L2Book, l2_delivery),
        ("book", Channel::L2Book, l2_delivery),
        ("funding", Channel::Funding, plain()),
        ("open_interest", Channel::OpenInterest, plain()),
        ("liquidations", Channel::Liquidations, plain()),
        ("mark", Channel::MarkPrice, plain()),
        ("mark_price", Channel::MarkPrice, plain()),
        ("index", Channel::IndexPrice, plain()),
        ("candles", Channel::Candles, plain()),
    ];
    for (configured, expected_channel, expected_delivery) in cases {
        assert_eq!(configured_channel(configured), Ok((expected_channel, expected_delivery)), "{configured}");
    }
    assert_eq!(configured_channel(" Trades "), Ok((Channel::Trades, plain())));
    let err = configured_channel("nope").unwrap_err();
    assert_eq!(err.message(), "validation: unknown configured channel \"nope\"");
}

#[test]
fn unknown_channel_fails_before_any_symbol_lookup() {
    let venue = configured_venue(&["MISSING"], &["trades", "bogus"]);
    let err = expand_concrete_subscriptions(&venue, &Vec::new()).unwrap_err();
    assert!(err.message().contains("unknown configured channel \"bogus\""));
    let one = configured_venue(&["BTCUSDT"], &["quote"]);
    let catalog = vec![(5, "BTCUSDT".to_string())];
    assert_eq!(
        expand_concrete_subscriptions(&one, &catalog).unwrap(),
        vec![ConcreteSubscription { instrument: 5, channel: Channel::Quote, delivery: DeliveryOptions { emit_bbo: true, ..plain() } }]
    );
}

#[test]
fn venue_codes_and_kinds() {
    assert_eq!(venue_meta(VenueKind::BinanceCoinm), ("binance-coinm", InstrumentKind::PerpetualInverse));
    assert_eq!(venue_meta(VenueKind::OkxFutures), ("okx-futures", InstrumentKind::FutureLinear));
    assert_eq!(venue_meta(VenueKind::CoinbaseAdvanced), ("coinbase-adv", InstrumentKind::Spot));
    assert!(inverse(InstrumentKind::PerpetualInverse));
    assert!(!inverse(InstrumentKind::Spot));
}

#[test]
fn planned_session_specs_preserve_every_factory_plan_entry() {
    let plan = vec!["wss://example.test/public".to_string(), "wss://example.test/business".to_string()];
    let sessions = require_session_specs("venue", plan).expect("nonempty plan");
    assert_eq!(sessions.len(), 2);
    assert_eq!(sessions[0], "wss://example.test/public");
    assert_eq!(sessions[1], "wss://example.test/business");
    assert_eq!(require_session_specs("okx", Vec::<String>::new()).unwrap_err(), "venue okx: empty plan");
}

#[test]
fn first_session_error_signals_stop_once() {
    let mut drain = SessionDrain::new();
    assert_eq!(drain.on_result(Ok(())), DrainAction::Continue);
    assert_eq!(drain.deadline_error(), None);
    assert_eq!(drain.on_result(Err("boom".to_string())), DrainAction::StopSiblings);
    assert_eq!(drain.on_result(Err("later".to_string())), DrainAction::Continue);
    assert_eq!(drain.deadline_error(), Some("boom; sibling session drain deadline exceeded".to_string()));
    assert_eq!(drain.finish(), Err("boom".to_string()));
    assert_eq!(SessionDrain::new().finish(), Ok(()));
}

#[test]
fn flags_and_plan_report() {
    let args: Vec<String> = ["marketfeed", "plan", "--config", "a.toml", "--iterations"].iter().map(|s| s.to_string()).collect();
    assert_eq!(parse_flag_str(&args, "--config"), Some("a.toml".to_string()));
    assert_eq!(parse_flag_str(&args, "--iterations"), None);
    assert_eq!(parse_flag_str(&args, "--venue"), None);
    assert_eq!(parse_iterations(&args), 1000);
    let args: Vec<String> = ["benchmark", "--iterations", "25"].iter().map(|s| s.to_string()).collect();
    assert_eq!(parse_iterations(&args), 25);

    let cfg = DaemonConfig {
        engine: EngineConfig::default(),
        telemetry: TelemetryConfig::default(),
        readiness: ReadinessConfig::default(),
        recording: RecordingConfig::default(),
        private: PrivateConfig::default(),
        venues: vec![configured_venue(&["BTCUSDT"], &["trades"])],
        sinks: Vec::new(),
    };
    let out = render_plan(&cfg, &vec![vec!["endpoint=wss://a subs=1".to_string()]]);
    assert_eq!(out, "venues=1\nvenue=binance-spot adapter=binance sessions=1\n  session[0] endpoint=wss://a subs=1\n");
}

#[test]
fn supervisor_reports_the_first_failed_required_sink() {
    let mut snaps = vec![
        SinkSnapshot {
            id: "opt".into(),
            kind: "memory",
            required: false,
            healthy: false,
            queue_len: 0,
            queue_capacity: 1,
            in_flight: 0,
            enqueued: 0,
            dropped: 0,
            errors: 1,
            last_error: Some("ignored".into()),
        },
        SinkSnapshot {
            id: "primary".into(),
            kind: "file",
            required: true,
            healthy: false,
            queue_len: 0,
            queue_capacity: 1,
            in_flight: 0,
            enqueued: 0,
            dropped: 0,
            errors: 1,
            last_error: None,
        },
    ];
    assert_eq!(failed_required_sink(&snaps), Some("required sink primary (file) failed: unknown error".to_string()));
    snaps[1].last_error = Some("disk full".into());
    assert_eq!(failed_required_sink(&snaps), Some("required sink primary (file) failed: disk full".to_string()));
    snaps[1].healthy = true;
    assert_eq!(failed_required_sink(&snaps), None);
}

#[test]
fn task_exits_name_why_the_daemon_stops() {
    assert_eq!(
        task_exit_error(&TaskExit::Returned(Err("recording write failed".into()))),
        "daemon task failed: recording write failed"
    );
    assert_eq!(task_exit_error(&TaskExit::Returned(Ok(()))), "daemon task exited unexpectedly");
    assert_eq!(task_exit_error(&TaskExit::JoinFailed("cancelled".into())), "daemon task join failure: cancelled");
}

fn synthetic_cfg() -> DaemonConfig {
    let mut telemetry = TelemetryConfig::default();
    telemetry.bind = "127.0.0.1:0".to_string();
    let mut readiness = ReadinessConfig::default();
    readiness.require_recording_healthy = false;
    DaemonConfig {
        engine: EngineConfig::default(),
        telemetry,
        readiness,
        recording: RecordingConfig::default(),
        private: PrivateConfig::default(),
        venues: vec![VenueConfig {
            id: "syn".to_string(),
            adapter: "synthetic".to_string(),
            segment: None,
            required: true,
            transport: None,
            symbols: vec!["BTC-USD".to_string()],
            channels: vec!["trades".to_string(), "l2".to_string()],
            api_key: None,
            api_secret: None,
            passphrase: None,
        }],
        sinks: Vec::new(),
    }
}

#[test]
fn catalog_lists_stub_instruments() {
    let cfg = synthetic_cfg();
    let out = format_catalog(&cfg, "syn").unwrap();
    assert!(out.contains("instruments=1"), "{out}");
    assert!(out.contains("BTC-USD"), "{out}");
    assert!(out.contains("source=stub"), "{out}");
}

#[test]
fn stub_catalog_report_lines() {
    let mut cfg = synthetic_cfg();
    let mut v = configured_venue(&["tETHF0:USTF0", "tBTCF0:USTF0"], &["trades"]);
    v.id = "bitfinex-deriv".to_string();
    v.adapter = "bitfinex".to_string();
    v.segment = Some("deriv".to_string());
    cfg.venues.push(v);
    let out = format_catalog(&cfg, "bitfinex-deriv").unwrap();
    assert_eq!(
        out,
        "venue_id=bitfinex-deriv adapter=bitfinex segment=Some(\"deriv\") venue_code=bitfinex-deriv catalog_version=1 instruments=2 source=stub\n  id=1 symbol=tETHF0:USTF0 kind=PerpetualLinear price_scale=2 qty_scale=8\n  id=2 symbol=tBTCF0:USTF0 kind=PerpetualLinear price_scale=2 qty_scale=8\n"
    );
    cfg.venues[0].symbols.clear();
    let empty = format_catalog(&cfg, "syn").unwrap();
    assert!(empty.ends_with("source=stub\n(empty stub catalog — add symbols= in config)\n"), "{empty}");
    assert_eq!(format_catalog(&cfg, "nope").unwrap_err(), "venue id \"nope\" not in config");
    cfg.venues[0].adapter = "mystery".to_string();
    assert!(format_catalog(&cfg, "syn").unwrap_err().starts_with("validation: "));
}
