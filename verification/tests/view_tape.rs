use marketfeed_daemon::tape::{merge_newest, tape_receive_ts, InstrumentTape, TapeEntry, TapeRing};
use marketfeed_daemon::view::{
    alert_webhook_configured, feed_lag_ms, lifecycle_label, venue_instruments, Lifecycle,
    ViewPlaneConfig,
};
use marketfeed_daemon::config::TelemetryConfig;
use marketfeed_daemon::venue_config::VenueConfig;

const SEC: u64 = 1_000_000_000;

fn trade(price: &str, qty: &str, ts: i64) -> TapeEntry {
    TapeEntry::Trade {
        venue: "syn".into(),
        instrument: 1,
        symbol: Some("BTC-USD".into()),
        price: price.into(),
        quantity: qty.into(),
        notional: None,
        aggressor: "buy".into(),
        trade_id: Some("t1".into()),
        exchange_ts_ns: Some(ts),
        receive_ts_ns: ts + 1,
    }
}

fn quote(bid: &str, ask: &str, ts: i64) -> TapeEntry {
    TapeEntry::Quote {
        venue: "syn".into(),
        instrument: 1,
        symbol: Some("BTC-USD".into()),
        bid_price: bid.into(),
        bid_quantity: None,
        ask_price: ask.into(),
        ask_quantity: None,
        exchange_ts_ns: None,
        receive_ts_ns: ts,
    }
}

fn price_of(e: &TapeEntry) -> &str {
    match e {
        TapeEntry::Trade { price, .. } => price,
        TapeEntry::Quote { bid_price, .. } => bid_price,
    }
}

#[test]
fn rate_cap_drops_within_a_window_and_reopens_after_a_second() {
    let mut ring = TapeRing::new(10, 2, 0);
    ring.push(trade("1", "1", 1), 0);
    ring.push(trade("2", "1", 2), SEC / 2);
    ring.push(trade("3", "1", 3), SEC - 1);
    assert_eq!(ring.len(), 2);
    assert_eq!(ring.dropped_count(), 1);
    ring.push(trade("4", "1", 4), SEC);
    assert_eq!(ring.len(), 3);
    let snap = ring.snapshot(2);
    assert_eq!(snap.iter().map(price_of).collect::<Vec<_>>(), vec!["4", "2"]);
    let zero = TapeRing::new(0, 0, 0);
    assert_eq!(zero.len(), 0);
}

#[test]
fn merged_snapshot_is_newest_first_and_bounded() {
    let a = vec![trade("t3", "1", 30), trade("t1", "1", 10)];
    let b = vec![quote("q4", "x", 40), quote("q2", "x", 20)];
    let merged = merge_newest(a.clone(), b.clone(), 3);
    assert_eq!(merged.iter().map(price_of).collect::<Vec<_>>(), vec!["q4", "t3", "q2"]);
    let ts: Vec<i64> = merged.iter().map(tape_receive_ts).collect();
    assert_eq!(ts, vec![40, 31, 20]);
    assert_eq!(merge_newest(a.clone(), b.clone(), 10).len(), 4);
    assert_eq!(merge_newest(Vec::new(), Vec::new(), 5).len(), 0);

    let mut tape = InstrumentTape::new(4, 0, 0);
    tape.push_trade(trade("t1", "1", 10), 0);
    tape.push_quote(quote("q2", "x", 20), 0);
    tape.push_trade(trade("t3", "1", 30), 0);
    let all = tape.snapshot(0, Some("all"));
    assert_eq!(all.iter().map(price_of).collect::<Vec<_>>(), vec!["t3"]);
    let mixed = tape.snapshot(5, None);
    assert_eq!(mixed.iter().map(price_of).collect::<Vec<_>>(), vec!["t3", "q2", "t1"]);
    assert_eq!(tape.trade_stats(), (2, 0));
    assert_eq!(tape.quote_stats(), (1, 0));
}

#[test]
fn clones_are_equal() {
    let t = trade("100", "2", 5);
    assert_eq!(t.clone(), t);
    let q = quote("1", "2", 3);
    assert_eq!(q.clone(), q);
}

#[test]
fn view_status_helpers() {
    assert_eq!(ViewPlaneConfig::default(), ViewPlaneConfig { tape_capacity: 256, tape_max_per_sec: 50 });
    let mut t = TelemetryConfig::default();
    t.ui_tape_capacity = 0;
    t.ui_tape_max_per_sec = 7;
    assert_eq!(ViewPlaneConfig::from_telemetry(&t), ViewPlaneConfig { tape_capacity: 1, tape_max_per_sec: 7 });
    assert!(!alert_webhook_configured(&t));
    t.alert_webhook_url = Some("   ".into());
    assert!(!alert_webhook_configured(&t));
    t.alert_webhook_url = Some("http://127.0.0.1:9/x".into());
    assert!(alert_webhook_configured(&t));
    assert_eq!(feed_lag_ms(5_000_000_000, Some(2_000_000_000)), Some(3000));
    assert_eq!(feed_lag_ms(1, Some(5)), Some(0));
    assert_eq!(feed_lag_ms(1, Some(0)), None);
    assert_eq!(feed_lag_ms(1, None), None);
    assert_eq!(lifecycle_label(Lifecycle::Draining), "draining");
    assert_eq!(lifecycle_label(Lifecycle::Running), "running");
}

#[test]
fn instruments_listing() {
    let mut v = VenueConfig {
        id: "syn".into(),
        adapter: "synthetic".into(),
        segment: None,
        required: true,
        transport: None,
        symbols: Vec::new(),
        channels: Vec::new(),
        api_key: None,
        api_secret: None,
        passphrase: None,
    };
    assert_eq!(venue_instruments(&v), vec![(1, "BTC-USD".to_string())]);
    v.adapter = "binance".into();
    v.symbols = vec!["ETHUSDT".into(), "BTCUSDT".into()];
    assert_eq!(venue_instruments(&v), vec![(1, "ETHUSDT".to_string()), (2, "BTCUSDT".to_string())]);
}
