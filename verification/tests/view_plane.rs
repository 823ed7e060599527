use marketfeed_daemon::config::{
    DaemonConfig, EngineConfig, PrivateConfig, ReadinessConfig, RecordingConfig, TelemetryConfig,
};
use marketfeed_daemon::metrics::VenueCounters;
use marketfeed_daemon::plane::{
    aggressor_str, fixed_add, fixed_difference, quantity_imbalance_bps, rescale_up, Aggressor, DepthLevel, DepthSnapshot, PlaneEvent, PlanePayload,
    ProcessStatus, ViewPlane,
};
use marketfeed_daemon::dom::{book_prices, less_value, parse_fixed, same_value};
use marketfeed_daemon::replay::Fixed;
use marketfeed_daemon::tape::TapeEntry;
use marketfeed_daemon::venue_config::VenueConfig;
use marketfeed_daemon::view::{Lifecycle, ViewPlaneConfig};

const NOW: u64 = 5_000_000_000;

fn fixed(coefficient: i128, scale: u8) -> Fixed {
    Fixed { coefficient, scale }
}

fn trade_event(venue: u32, instrument: u32, price: Fixed, qty: Fixed, ts: i64) -> PlaneEvent {
    PlaneEvent {
        venue,
        instrument: Some(instrument),
        exchange_ts: Some(ts),
        receive_ts: ts.saturating_add(1),
        payload: PlanePayload::Trade {
            price,
            quantity: qty,
            aggressor: Aggressor::Buy,
            trade_id: Some("t1".into()),
        },
    }
}

fn quote_event(venue: u32, instrument: u32, bid: Fixed, ask: Fixed) -> PlaneEvent {
    PlaneEvent {
        venue,
        instrument: Some(instrument),
        exchange_ts: Some(1),
        receive_ts: 2,
        payload: PlanePayload::Quote {
            bid_price: bid,
            bid_quantity: Some(fixed(1, 0)),
            ask_price: ask,
            ask_quantity: Some(fixed(1, 0)),
        },
    }
}

fn market_event(venue: u32, instrument: u32, ts: i64, payload: PlanePayload) -> PlaneEvent {
    PlaneEvent { venue, instrument: Some(instrument), exchange_ts: Some(ts), receive_ts: ts, payload }
}

fn syn_plane(capacity: usize, max_per_sec: u32) -> ViewPlane {
    let mut plane = ViewPlane::new(ViewPlaneConfig { tape_capacity: capacity, tape_max_per_sec: max_per_sec });
    plane.register_venue(7, "syn", &vec!["BTC-USD".to_string()]);
    plane
}

fn venue(id: &str, adapter: &str, required: bool) -> VenueConfig {
    VenueConfig {
        id: id.into(),
        adapter: adapter.into(),
        segment: None,
        required,
        transport: None,
        symbols: Vec::new(),
        channels: Vec::new(),
        api_key: None,
        api_secret: None,
        passphrase: None,
    }
}

fn config_with(venues: Vec<VenueConfig>) -> DaemonConfig {
    DaemonConfig {
        engine: EngineConfig::default(),
        telemetry: TelemetryConfig::default(),
        readiness: ReadinessConfig::default(),
        recording: RecordingConfig::default(),
        private: PrivateConfig::default(),
        venues,
        sinks: Vec::new(),
    }
}

fn zero_counters() -> VenueCounters {
    VenueCounters {
        frames_received: 0,
        frames_sent: 0,
        events_dispatched: 0,
        bytes_received: 0,
        bytes_sent: 0,
        events_normalized: 0,
        events_dropped: 0,
        queue_overflows: 0,
        action_buffer_overflows: 0,
        reconnects: 0,
        sequence_gaps: 0,
        checksum_mismatches: 0,
        book_invalidations: 0,
        book_snapshot_rejections: 0,
        book_resynchronizations: 0,
        parse_failures: 0,
        unknown_messages: 0,
        batch_queue_occupancy: 0,
        batch_queue_capacity: 0,
        system_queue_occupancy: 0,
        system_queue_capacity: 0,
        valid_books: 0,
    }
}

fn process() -> ProcessStatus {
    ProcessStatus {
        live: true,
        ready: true,
        started_unix_secs: 100,
        now_unix_secs: 160,
        lifecycle: Lifecycle::Running,
        disk_pressure: false,
        shutdown_draining: false,
        recording_healthy: true,
        recording_queue_len: 0,
        recording_dropped: 0,
    }
}

#[test]
fn tape_drop_newest_and_rate_cap() {
    let mut plane = syn_plane(2, 0);
    plane.ingest_batch(&vec![trade_event(7, 1, fixed(100, 0), fixed(1, 0), 1)], NOW);
    plane.ingest_batch(&vec![trade_event(7, 1, fixed(101, 0), fixed(1, 0), 1)], NOW);
    plane.ingest_batch(&vec![trade_event(7, 1, fixed(102, 0), fixed(1, 0), 1)], NOW);
    let tape = plane.tape("syn", 1, 10);
    assert_eq!(tape.len(), 2);
    match &tape[0] {
        TapeEntry::Trade { price, .. } => assert_eq!(price, "102"),
        _ => panic!("expected trade"),
    }
}

#[test]
fn quote_flood_does_not_evict_trades() {
    let mut plane = syn_plane(2, 0);
    plane.ingest_batch(&vec![trade_event(7, 1, fixed(100, 0), fixed(5, 1), 1)], NOW);
    for i in 0..20 {
        plane.ingest_batch(&vec![quote_event(7, 1, fixed(99 + i, 0), fixed(101 + i, 0))], NOW);
    }
    let trades = plane.tape_filtered("syn", 1, 10, Some("trade"));
    assert_eq!(trades.len(), 1);
    match &trades[0] {
        TapeEntry::Trade { price, quantity, .. } => {
            assert_eq!(price, "100");
            assert_eq!(quantity, "0.5");
        }
        _ => panic!("expected trade"),
    }
    let quotes = plane.tape_filtered("syn", 1, 10, Some("quote"));
    assert_eq!(quotes.len(), 2);
}

#[test]
fn trade_notional_computed() {
    let mut plane = syn_plane(256, 50);
    plane.ingest_batch(&vec![trade_event(7, 1, fixed(10050, 2), fixed(2, 0), 1)], NOW);
    let tape = plane.tape("syn", 1, 1);
    match &tape[0] {
        TapeEntry::Trade { notional, price, quantity, symbol, venue, .. } => {
            assert_eq!(price, "100.50");
            assert_eq!(quantity, "2");
            assert_eq!(notional.as_deref(), Some("201.00"));
            assert_eq!(symbol.as_deref(), Some("BTC-USD"));
            assert_eq!(venue, "syn");
        }
        _ => panic!("expected trade"),
    }
}

#[test]
fn derivatives_projection_preserves_funding_oi_change_and_liquidations() {
    let mut plane = ViewPlane::new(ViewPlaneConfig::default());
    plane.register_venue(7, "perp", &vec!["BTCUSDT".to_string()]);
    let now: i64 = 1_700_000_000_000_000_000;
    for payload in [
        PlanePayload::Funding { rate: fixed(1, 4), next_funding_ts: Some(now + 1_000_000_000) },
        PlanePayload::OpenInterest { quantity: fixed(100_000, 3) },
    ] {
        plane.ingest_batch(&vec![market_event(7, 1, now, payload)], NOW);
    }
    plane.ingest_batch(&vec![market_event(7, 1, now + 1, PlanePayload::OpenInterest { quantity: fixed(102_500, 3) })], NOW);
    plane.ingest_batch(
        &vec![market_event(
            7,
            1,
            now + 2,
            PlanePayload::Liquidation { price: fixed(10_000, 2), quantity: fixed(250, 3), side: Aggressor::Sell },
        )],
        NOW,
    );

    let snapshot = plane.derivatives_snapshot("perp", 1, now);
    assert_eq!(snapshot.status, "live");
    assert_eq!(snapshot.funding.unwrap().rate, "0.0001");
    let oi = snapshot.open_interest.unwrap();
    assert_eq!(oi.quantity, "102.500");
    assert_eq!(oi.change.as_deref(), Some("2.500"));
    assert_eq!(snapshot.liquidations.len(), 1);
    assert_eq!(snapshot.liquidations[0].side, "sell");
}

#[test]
fn status_tracks_last_event_ts() {
    let mut cfg = config_with(vec![venue("syn", "synthetic", false)]);
    cfg.readiness.require_required_venues = false;
    let mut plane = ViewPlane::from_daemon_config(&cfg);
    plane.register_venue(1, "syn", &vec!["BTC-USD".to_string()]);
    plane.ingest_batch(&vec![trade_event(1, 1, fixed(100, 0), fixed(1, 0), 1)], NOW);
    let flags = vec![("syn".to_string(), true)];
    let counters: Vec<(String, VenueCounters)> = Vec::new();
    let status = plane.status(&cfg, &process(), &flags, &counters, 1_000_000_000);
    let v = status.venues.iter().find(|v| v.id == "syn").unwrap();
    assert!(v.last_event_ts_ns.is_some());
    assert!(v.last_trade_ts_ns.is_some());
    assert_eq!(v.tape_trades, 1);

    // A receive clock ahead of the wall clock shows zero lag, never a wraparound.
    plane.ingest_batch(&vec![trade_event(1, 1, fixed(100, 0), fixed(1, 0), i64::MAX)], NOW);
    let status = plane.status(&cfg, &process(), &flags, &counters, 1_000_000_000);
    let v = status.venues.iter().find(|v| v.id == "syn").unwrap();
    assert_eq!(v.last_event_ts_ns, Some(i64::MAX));
    assert_eq!(v.feed_lag_ms, Some(0));
}

#[test]
fn status_reports_process_facts_and_counters() {
    let cfg = config_with(vec![venue("a", "binance", true), venue("b", "okx", false)]);
    let plane = ViewPlane::from_daemon_config(&cfg);
    let flags = vec![("a".to_string(), true)];
    let mut c = zero_counters();
    c.events_dispatched = 5;
    c.reconnects = 2;
    c.batch_queue_occupancy = 3;
    let counters = vec![("b".to_string(), c)];
    let status = plane.status(&cfg, &process(), &flags, &counters, 0);
    assert_eq!(status.uptime_secs, 60);
    assert_eq!(status.lifecycle, "running");
    assert_eq!(status.venues.len(), 2);
    assert!(status.venues[0].live);
    assert!(!status.venues[1].live);
    assert_eq!(status.venues[0].events_dispatched, 0);
    assert_eq!(status.venues[1].events_dispatched, 5);
    assert_eq!(status.venues[1].reconnects, 2);
    assert_eq!(status.venues[1].queue_occupancy, 3);
    assert_eq!(status.venues[1].last_event_ts_ns, None);
    assert_eq!(status.venues[1].feed_lag_ms, None);
}

#[test]
fn per_venue_tape_totals() {
    let mut plane = ViewPlane::new(ViewPlaneConfig { tape_capacity: 1, tape_max_per_sec: 0 });
    plane.ingest_batch(
        &vec![
            trade_event(7, 1, fixed(1, 0), fixed(1, 0), 1),
            trade_event(7, 1, fixed(2, 0), fixed(1, 0), 2),
            quote_event(7, 2, fixed(1, 0), fixed(2, 0)),
            quote_event(8, 1, fixed(1, 0), fixed(2, 0)),
        ],
        NOW,
    );
    assert_eq!(plane.venue_tape_stats(7), (1, 1, 1, 0));
    assert_eq!(plane.venue_tape_stats(9), (0, 0, 0, 0));
    assert_eq!(plane.stats(), (1, 1));
}

#[test]
fn unregistered_venue_is_named_from_its_id() {
    let mut plane = ViewPlane::new(ViewPlaneConfig::default());
    let venue = plane.ingest_batch(&vec![trade_event(42, 3, fixed(5, 0), fixed(1, 0), 10)], NOW);
    assert_eq!(venue, Some(42));
    assert_eq!(plane.venue_id("venue-42"), Some(42));
    let tape = plane.tape("venue-42", 3, 5);
    match &tape[0] {
        TapeEntry::Trade { venue, symbol, .. } => {
            assert_eq!(venue, "venue-42");
            assert_eq!(symbol, &None);
        }
        _ => panic!("expected trade"),
    }
    assert!(plane.tape("nowhere", 3, 5).is_empty());
}

#[test]
fn batch_venue_needs_one_venue() {
    let mut plane = ViewPlane::new(ViewPlaneConfig::default());
    let mixed = vec![quote_event(1, 1, fixed(1, 0), fixed(2, 0)), quote_event(2, 1, fixed(1, 0), fixed(2, 0))];
    assert_eq!(plane.ingest_batch(&mixed, NOW), None);
    assert_eq!(plane.ingest_batch(&Vec::new(), NOW), None);
    let without_instrument = PlaneEvent {
        venue: 3,
        instrument: None,
        exchange_ts: None,
        receive_ts: 9,
        payload: PlanePayload::Other,
    };
    assert_eq!(plane.ingest_batch(&vec![without_instrument], NOW), Some(3));
    assert_eq!(plane.venue_id("venue-3"), None);
    assert_eq!(plane.stats().0, 3);
}

#[test]
fn registration_and_symbol_resolution() {
    let mut plane = ViewPlane::new(ViewPlaneConfig::default());
    plane.register_venue(5, "okx", &vec!["BTC-USDT".to_string(), "ETH-USDT".to_string()]);
    assert_eq!(plane.resolve_instrument("okx", "ETH-USDT"), Some(2));
    assert_eq!(plane.resolve_instrument("okx", "SOL-USDT"), None);
    plane.register_venue(6, "synthetic-demo", &Vec::new());
    assert_eq!(plane.resolve_instrument("synthetic-demo", "BTC-USD"), Some(1));
    plane.register_catalog("okx", 9, &vec![(40, "SOL-USDT".to_string())]);
    assert_eq!(plane.venue_id("okx"), Some(9));
    assert_eq!(plane.resolve_instrument("okx", "SOL-USDT"), Some(40));
}

#[test]
fn liquidations_are_capped_and_shown_newest_first() {
    let mut plane = ViewPlane::new(ViewPlaneConfig::default());
    plane.register_venue(1, "perp", &vec!["BTCUSDT".to_string()]);
    for i in 0..600i64 {
        let payload = PlanePayload::Liquidation { price: fixed(i as i128, 0), quantity: fixed(1, 0), side: Aggressor::Buy };
        plane.ingest_batch(&vec![market_event(1, 1, i, payload)], NOW);
    }
    let snap = plane.derivatives_snapshot("perp", 1, 600);
    assert_eq!(snap.revision, 600);
    assert_eq!(snap.liquidations.len(), 100);
    assert_eq!(snap.liquidations[0].price, "599");
    assert_eq!(snap.liquidations[99].price, "500");
    assert!(snap.funding.is_none());
    let missing = plane.derivatives_snapshot("perp", 2, 600);
    assert_eq!(missing.status, "unavailable");
    assert_eq!(missing.symbol, None);
}

#[test]
fn funding_spread_across_venues_for_a_symbol() {
    let mut plane = ViewPlane::new(ViewPlaneConfig::default());
    plane.register_venue(1, "a", &vec!["BTCUSDT".to_string()]);
    plane.register_venue(2, "b", &vec!["BTCUSDT".to_string()]);
    plane.register_venue(3, "c", &vec!["BTCUSDT".to_string()]);
    let now: i64 = 1_000_000_000_000;
    plane.ingest_batch(&vec![market_event(1, 1, now, PlanePayload::Funding { rate: fixed(1, 4), next_funding_ts: None })], NOW);
    plane.ingest_batch(&vec![market_event(2, 1, now, PlanePayload::Funding { rate: fixed(-25, 5), next_funding_ts: None })], NOW);
    // Stale past two minutes: left out.
    plane.ingest_batch(
        &vec![market_event(3, 1, now - 200_000_000_000, PlanePayload::Funding { rate: fixed(9, 1), next_funding_ts: None })],
        NOW,
    );
    let snap = plane.derivatives_snapshot("a", 1, now);
    let d = snap.funding_divergence.unwrap();
    assert_eq!(d.compatible_venues, 2);
    assert_eq!(d.min_rate, "-0.00025");
    assert_eq!(d.max_rate, "0.00010");
    assert_eq!(d.spread, "0.00035");
    let stale = plane.derivatives_snapshot("c", 1, now);
    assert!(stale.funding.unwrap().stale);
}

#[test]
fn fixed_point_rescale_and_difference() {
    assert_eq!(rescale_up(fixed(25, 1), 3), Some(fixed(2500, 3)));
    assert_eq!(rescale_up(fixed(25, 3), 1), None);
    assert_eq!(rescale_up(fixed(i128::MAX / 5, 0), 1), None);
    assert_eq!(rescale_up(fixed(0, 0), 200), Some(fixed(0, 200)));
    assert_eq!(fixed_difference(fixed(102_500, 3), fixed(1000, 1)), Some(fixed(2_500, 3)));
    assert_eq!(fixed_difference(fixed(i128::MIN, 0), fixed(1, 0)), None);
    assert_eq!(aggressor_str(Aggressor::Unknown), "unknown");
    assert_eq!(fixed_add(fixed(1, 1), fixed(25, 2)), Some(fixed(35, 2)));
    assert_eq!(fixed_add(fixed(i128::MAX, 0), fixed(1, 0)), None);
}

#[test]
fn book_imbalance_in_basis_points() {
    assert_eq!(quantity_imbalance_bps(fixed(3, 0), fixed(1, 0)), Some(5000));
    assert_eq!(quantity_imbalance_bps(fixed(5, 1), fixed(1, 0)), Some(-3333));
    assert_eq!(quantity_imbalance_bps(fixed(0, 0), fixed(0, 3)), Some(0));
    assert_eq!(quantity_imbalance_bps(fixed(1, 0), fixed(0, 0)), Some(10_000));
    assert_eq!(quantity_imbalance_bps(fixed(i128::MAX / 2, 0), fixed(1, 0)), None);
}

#[test]
fn instruments_list_each_configured_venue() {
    let mut binance = venue("bn", "binance", true);
    binance.symbols = vec!["BTCUSDT".into(), "ETHUSDT".into()];
    let cfg = config_with(vec![binance, venue("syn", "synthetic", false)]);
    let mut plane = ViewPlane::from_daemon_config(&cfg);
    plane.register_venue(4, "bn", &vec!["BTCUSDT".to_string(), "ETHUSDT".to_string()]);
    let listing = plane.instruments(&cfg);
    assert_eq!(listing.len(), 2);
    assert_eq!(listing[0].venue_id, Some(4));
    assert_eq!(listing[0].symbols, vec![(1, "BTCUSDT".to_string()), (2, "ETHUSDT".to_string())]);
    assert_eq!(listing[1].venue_id, None);
    assert_eq!(listing[1].symbols, vec![(1, "BTC-USD".to_string())]);
    assert_eq!(plane.resolve_instrument("bn", "ETHUSDT"), Some(2));
}

fn book_event(venue: u32, instrument: u32, ts: i64, bid: Fixed, ask: Fixed) -> PlaneEvent {
    PlaneEvent {
        venue,
        instrument: Some(instrument),
        exchange_ts: None,
        receive_ts: ts,
        payload: PlanePayload::Book {
            depth: Some(DepthSnapshot {
                bids: vec![DepthLevel { price: bid, quantity: fixed(1_000, 3) }],
                asks: vec![DepthLevel { price: ask, quantity: fixed(2_000, 3) }],
            }),
        },
    }
}

#[test]
fn depth_history_keeps_the_newest_samples() {
    let mut plane = ViewPlane::new(ViewPlaneConfig::default());
    plane.register_venue(1, "syn", &vec!["BTC-USD".to_string()]);
    let sample_ns: i64 = 100_000_000;
    for i in 0..601i64 {
        plane.ingest_batch(&vec![book_event(1, 1, i * sample_ns, fixed(10_000 + i as i128, 2), fixed(10_100, 2))], NOW);
    }
    let depth = plane.depth_history("syn", 1, 10_000);
    assert_eq!(depth.samples.len(), 600);
    assert_eq!(depth.evicted_samples, 1);
    assert_eq!(depth.capacity, 600);
    assert_eq!(depth.samples[0].bids[0].price, "100.01");
    assert_eq!(depth.samples[599].bids[0].price, "106.00");
    assert_eq!(depth.samples[599].asks[0].quantity, "2.000");
    let newest = plane.depth_history("syn", 1, 2);
    assert_eq!(newest.samples.len(), 2);
    assert_eq!(newest.samples[1].event_ts_ns, 600 * sample_ns);
}

#[test]
fn depth_updates_within_the_interval_are_coalesced_until_invalidated() {
    let mut plane = ViewPlane::new(ViewPlaneConfig::default());
    plane.register_venue(1, "one", &vec!["BTC-USD".to_string()]);
    plane.register_venue(2, "two", &vec!["BTC-USD".to_string()]);
    plane.ingest_batch(&vec![book_event(1, 1, 0, fixed(100, 0), fixed(101, 0))], NOW);
    plane.ingest_batch(&vec![book_event(2, 1, 0, fixed(200, 0), fixed(201, 0))], NOW);
    plane.ingest_batch(&vec![book_event(1, 1, 50_000_000, fixed(100, 0), fixed(101, 0))], NOW);
    let one = plane.depth_history("one", 1, 10);
    assert_eq!(one.samples.len(), 1);
    assert_eq!(one.coalesced_samples, 1);
    assert_eq!(one.samples[0].epoch, 0);

    plane.invalidate_book(Some(1), 1);
    plane.ingest_batch(&vec![book_event(1, 1, 60_000_000, fixed(100, 0), fixed(101, 0))], NOW);
    let one = plane.depth_history("one", 1, 10);
    assert_eq!(one.samples.len(), 2);
    assert_eq!(one.samples[1].epoch, 1);
    let two = plane.depth_history("two", 1, 10);
    assert_eq!(two.samples.len(), 1);
    assert_eq!(two.samples[0].epoch, 0);

    // Without a venue the invalidation is ignored.
    plane.invalidate_book(None, 1);
    assert_eq!(plane.depth_history("two", 1, 10).samples.len(), 1);
    let missing = plane.depth_history("nowhere", 1, 10);
    assert!(missing.samples.is_empty());
    assert_eq!(missing.symbol, None);
}

fn px(text: &str) -> Fixed {
    parse_fixed(text).unwrap()
}

fn book(bids: &[(&str, &str)], asks: &[(&str, &str)]) -> PlanePayload {
    PlanePayload::Book {
        depth: Some(DepthSnapshot {
            bids: bids.iter().map(|(p, q)| DepthLevel { price: px(p), quantity: px(q) }).collect(),
            asks: asks.iter().map(|(p, q)| DepthLevel { price: px(p), quantity: px(q) }).collect(),
        }),
    }
}

#[test]
fn dom_snapshot_preserves_exact_book_flow_and_mbp_columns() {
    let mut plane = ViewPlane::new(ViewPlaneConfig::default());
    plane.register_venue(7, "perp", &vec!["BTCUSDT".to_string()]);
    plane.register_catalog("perp", 7, &vec![(1, "BTCUSDT".to_string())]);
    let now: i64 = 1_700_000_000_000_000_000;

    plane.ingest_batch(
        &vec![market_event(7, 1, now.saturating_sub(200_000_000), book(&[("100.00", "2.000")], &[("101.00", "3.000")]))],
        NOW,
    );
    // The delta raises the bid at 100.00 to 3.000; the event carries the book it leaves.
    plane.ingest_batch(&vec![market_event(7, 1, now, book(&[("100.00", "3.000")], &[("101.00", "3.000")]))], NOW);
    plane.ingest_batch(
        &vec![market_event(
            7,
            1,
            now,
            PlanePayload::Trade {
                price: px("100.00"),
                quantity: px("0.250"),
                aggressor: Aggressor::Buy,
                trade_id: Some("dom-1".into()),
            },
        )],
        NOW,
    );

    let dom = plane.dom_snapshot("perp", 1, 8, 300, now);
    assert_eq!(dom.status, "live");
    let bid = dom.rows.iter().find(|row| row.price == "100.00").expect("100 bid row");
    assert_eq!(bid.bid_quantity, "3.000");
    assert_eq!(bid.ask_quantity, "0.000");
    assert_eq!(bid.mbp_delta_quantity, "1.000");
    assert_eq!(bid.buy_executed_notional, "25.00000");
    assert_eq!(bid.sell_executed_notional, "0.00000");
    assert_eq!(bid.executed_delta_notional, "25.00000");
}

#[test]
fn book_snapshot_from_events() {
    // A stored depth level is a pair of 128-bit coefficients.
    assert_eq!(std::mem::size_of::<(i128, i128)>(), 32);
    let mut plane = ViewPlane::new(ViewPlaneConfig::default());
    plane.register_venue(1, "syn", &vec!["BTC-USD".to_string()]);
    let book_batch = |bid: &str, ask: &str| {
        vec![PlaneEvent {
            venue: 1,
            instrument: Some(1),
            exchange_ts: None,
            receive_ts: 1,
            payload: book(&[(bid, "1.5")], &[(ask, "2.0")]),
        }]
    };
    plane.ingest_batch(&book_batch("100.00", "101.00"), NOW);
    let view = plane.book_snapshot("syn", 1, Some(1)).unwrap();
    assert_eq!(view.bids.len(), 1);
    assert_eq!(view.asks[0].price, "101.00");
    assert_eq!(view.symbol.as_deref(), Some("BTC-USD"));
    let history = plane.depth_history("syn", 1, 10);
    assert_eq!(history.samples.len(), 1);
    assert_eq!(history.capacity, 600);
    assert_eq!(history.samples[0].bids[0].price, "100.00");
    assert_eq!(history.coalesced_samples, 0);
    assert_eq!(history.evicted_samples, 0);
    // The stored sample keeps scale 2 and coefficient 10_000 for the bid price.
    assert_eq!(parse_fixed(&history.samples[0].bids[0].price), Some(fixed(10_000, 2)));

    plane.ingest_batch(&book_batch("99.00", "102.00"), NOW);
    let history = plane.depth_history("syn", 1, 10);
    assert_eq!(history.samples.len(), 1);
    assert_eq!(history.coalesced_samples, 1);
}

#[test]
fn book_read_is_cut_to_the_depth_asked_for() {
    let mut plane = syn_plane(16, 0);
    assert!(plane.book_snapshot("syn", 1, None).is_none());
    plane.ingest_batch(
        &vec![market_event(7, 1, 10, book(&[("100", "1"), ("99", "2"), ("98", "3")], &[("101", "4"), ("102", "5")]))],
        NOW,
    );
    let full = plane.book_snapshot("syn", 1, None).unwrap();
    assert_eq!(full.bids.len(), 3);
    assert_eq!(full.asks.len(), 2);
    assert_eq!(full.depth, None);
    let top = plane.book_snapshot("syn", 1, Some(2)).unwrap();
    assert_eq!(top.bids.len(), 2);
    assert_eq!(top.bids[1].price, "99");
    assert_eq!(top.bids[1].quantity, "2");
    assert_eq!(top.asks.len(), 2);
    assert_eq!(top.depth, Some(2));
    assert!(plane.book_snapshot("nowhere", 1, None).is_none());
    assert!(plane.book_snapshot("syn", 2, None).is_none());

    plane.invalidate_book(Some(7), 1);
    assert!(plane.book_snapshot("syn", 1, None).is_none());
}

#[test]
fn dom_reports_why_it_is_unavailable() {
    let mut plane = syn_plane(16, 0);
    let dom = plane.dom_snapshot("nowhere", 1, 10, 0, 1_000);
    assert_eq!(dom.status, "unavailable");
    assert_eq!(dom.reason.as_deref(), Some("venue_not_registered"));
    assert_eq!(dom.execution_window_sec, 1);
    assert!(dom.rows.is_empty());

    let dom = plane.dom_snapshot("syn", 1, 10, 10_000, 1_000);
    assert_eq!(dom.reason.as_deref(), Some("book_unavailable"));
    assert_eq!(dom.execution_window_sec, 3_600);
    assert_eq!(dom.symbol.as_deref(), Some("BTC-USD"));

    plane.ingest_batch(&vec![market_event(7, 1, 10, book(&[("100", "1")], &[("101", "1")]))], NOW);
    let dom = plane.dom_snapshot("syn", 1, 10, 60, 1_000);
    assert_eq!(dom.status, "live");
    assert_eq!(dom.reason, None);
    assert_eq!(dom.revision, 10);
    assert_eq!(dom.epoch, 0);
    assert_eq!(dom.rows.len(), 2);

    plane.invalidate_book(Some(7), 1);
    let dom = plane.dom_snapshot("syn", 1, 10, 60, 1_000);
    assert_eq!(dom.reason.as_deref(), Some("book_unavailable"));
    assert_eq!(dom.revision, 0);
}

#[test]
fn dom_rows_run_from_the_highest_price_with_cumulative_notional() {
    let mut plane = syn_plane(16, 0);
    let now: i64 = 1_000_000_000_000;
    plane.ingest_batch(
        &vec![market_event(
            7,
            1,
            now,
            book(&[("100.00", "2.0"), ("99.50", "1.0")], &[("101.00", "4.0"), ("100.0", "1.0")]),
        )],
        NOW,
    );
    // An old trade falls outside a one-second window; a sell at 99.50 is inside it.
    for (ts, price, side) in [(now - 5_000_000_000, "101.00", Aggressor::Buy), (now, "99.50", Aggressor::Sell)] {
        plane.ingest_batch(
            &vec![market_event(
                7,
                1,
                ts,
                PlanePayload::Trade { price: px(price), quantity: px("2.0"), aggressor: side, trade_id: None },
            )],
            NOW,
        );
    }
    let dom = plane.dom_snapshot("syn", 1, 10, 1, now);
    assert_eq!(dom.status, "live");
    let prices: Vec<&str> = dom.rows.iter().map(|r| r.price.as_str()).collect();
    assert_eq!(prices, vec!["101.00", "100.00", "99.50"]);

    let top = &dom.rows[0];
    assert_eq!(top.ask_quantity, "4.0");
    assert_eq!(top.bid_quantity, "0.0");
    assert_eq!(top.buy_executed_notional, "0.000");
    assert_eq!(top.imbalance_bps, -10_000);
    // Asks at or below 101.00: 404.000 + 100.00; bids at or above it: none.
    assert_eq!(top.ask_cumulative_notional, "504.000");
    assert_eq!(top.bid_cumulative_notional, "0.000");

    let mid = &dom.rows[1];
    assert_eq!(mid.bid_quantity, "2.0");
    // The ask at 100.0 is the same price as the bid at 100.00.
    assert_eq!(mid.ask_quantity, "1.0");
    assert_eq!(mid.imbalance_bps, 3_333);
    assert_eq!(mid.bid_cumulative_notional, "200.000");

    let low = &dom.rows[2];
    assert_eq!(low.sell_executed_notional, "199.000");
    assert_eq!(low.total_executed_notional, "199.000");
    assert_eq!(low.executed_delta_notional, "-199.000");
    assert_eq!(low.bid_cumulative_notional, "299.500");
    // With a single depth sample the whole bid counts as new.
    assert_eq!(low.mbp_delta_quantity, "1.0");
    assert_eq!(low.mbp_delta_notional, "99.500");

    // Only the first level of each side when the depth asked for is one.
    let shallow = plane.dom_snapshot("syn", 1, 0, 1, now);
    assert_eq!(shallow.rows.len(), 2);
}

#[test]
fn book_prices_are_sorted_highest_first_without_repeats() {
    let bids = vec![DepthLevel { price: px("100.00"), quantity: px("1") }, DepthLevel { price: px("99.5"), quantity: px("1") }];
    let asks = vec![DepthLevel { price: px("101"), quantity: px("1") }, DepthLevel { price: px("100.0"), quantity: px("1") }];
    let prices = book_prices(&bids, &asks);
    assert_eq!(prices, vec![fixed(101, 0), fixed(10_000, 2), fixed(995, 1)]);
    assert!(same_value(px("100.0"), px("100.00")));
    assert!(!same_value(px("100.01"), px("100.0")));
    assert!(less_value(px("-1.5"), px("1")));
    assert!(!less_value(px("2.50"), px("2.5")));
}

#[test]
fn tape_numbers_read_back() {
    assert_eq!(parse_fixed("-1.50"), Some(fixed(-150, 2)));
    assert_eq!(parse_fixed("12"), Some(fixed(12, 0)));
    assert_eq!(parse_fixed("0.00001"), Some(fixed(1, 5)));
    assert_eq!(parse_fixed("1."), None);
    assert_eq!(parse_fixed(".5"), None);
    assert_eq!(parse_fixed("-"), None);
    assert_eq!(parse_fixed("1.2.3"), None);
    assert_eq!(parse_fixed("abc"), None);
    assert_eq!(parse_fixed("170141183460469231731687303715884105727"), Some(fixed(i128::MAX, 0)));
    assert_eq!(parse_fixed("170141183460469231731687303715884105728"), None);
    assert_eq!(parse_fixed("-170141183460469231731687303715884105728"), Some(fixed(i128::MIN, 0)));
}

fn book_batch(venue: u32, instrument: u32, bid: &str, ask: &str) -> Vec<PlaneEvent> {
    vec![PlaneEvent {
        venue,
        instrument: Some(instrument),
        exchange_ts: None,
        receive_ts: 1,
        payload: book(&[(bid, "1.5")], &[(ask, "2.0")]),
    }]
}

#[test]
fn direct_sink_book_invalidation_removes_only_current_venue_instrument() {
    let mut plane = ViewPlane::new(ViewPlaneConfig::default());
    plane.register_venue(1, "one", &vec!["BTC-USD".to_string()]);
    plane.register_venue(2, "two", &vec!["BTC-USD".to_string()]);
    plane.ingest_batch(&book_batch(2, 1, "200", "201"), NOW);
    // The plane fed directly invalidates books of the venue of the last batch it took.
    let sink_venue = plane.ingest_batch(&book_batch(1, 1, "100", "101"), NOW);
    assert_eq!(sink_venue, Some(1));

    plane.invalidate_book(sink_venue, 1);

    assert!(plane.book_snapshot("one", 1, None).is_none());
    assert!(plane.book_snapshot("two", 1, None).is_some());
}

#[test]
fn shared_sink_book_invalidation_removes_only_current_venue_instrument() {
    let mut plane = ViewPlane::new(ViewPlaneConfig::default());
    plane.register_venue(1, "one", &vec!["BTC-USD".to_string()]);
    plane.register_venue(2, "two", &vec!["BTC-USD".to_string()]);
    plane.ingest_batch(&book_batch(1, 1, "100", "101"), NOW);
    plane.ingest_batch(&book_batch(2, 1, "200", "201"), NOW);

    // A sink bound to venue 1 reports the invalidation for its own venue.
    let fresh_one_venue = Some(1);
    plane.invalidate_book(fresh_one_venue, 1);

    assert!(plane.book_snapshot("one", 1, None).is_none());
    assert!(plane.book_snapshot("two", 1, None).is_some());
}
