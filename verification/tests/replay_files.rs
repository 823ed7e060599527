use marketfeed_daemon::config::{
    DaemonConfig, EngineConfig, PrivateConfig, ReadinessConfig, RecordingConfig, TelemetryConfig,
};
use marketfeed_daemon::replay::{
    check_replay_name, fixed_from_parts, fixed_mul, format_fixed, replay_format, replay_limit, replay_page, replay_root,
    replay_row, replay_window, sort_by_name, Fixed, FixedParts, ReplayEnvelope, ReplayFileInfo, ReplayPayload, ReplayRow,
};

fn config() -> DaemonConfig {
    DaemonConfig {
        engine: EngineConfig::default(),
        telemetry: TelemetryConfig::default(),
        readiness: ReadinessConfig::default(),
        recording: RecordingConfig::default(),
        private: PrivateConfig::default(),
        venues: Vec::new(),
        sinks: Vec::new(),
    }
}

fn info(name: &str) -> ReplayFileInfo {
    ReplayFileInfo { name: name.to_string(), size_bytes: name.len() as u64, format: "jsonl".to_string() }
}

#[test]
fn rejects_path_traversal() {
    assert!(check_replay_name("../etc/passwd").is_err());
    assert!(check_replay_name("/etc/passwd").is_err());
}

#[test]
fn replay_name_reasons() {
    assert_eq!(check_replay_name(""), Err("invalid file name".to_string()));
    assert_eq!(check_replay_name("a\0b"), Err("invalid file name".to_string()));
    assert_eq!(check_replay_name("x..y"), Err("invalid file name".to_string()));
    assert_eq!(check_replay_name("/abs.jsonl"), Err("invalid file path".to_string()));
    assert_eq!(check_replay_name("day1/seg.mfne"), Ok(()));
}

#[test]
fn replay_root_defaults_and_overrides() {
    let mut cfg = config();
    assert_eq!(replay_root(&cfg), ".local/live-ui/raw");
    cfg.telemetry.replay_dir = Some("/data/replay".to_string());
    assert_eq!(replay_root(&cfg), "/data/replay");
}

#[test]
fn replay_formats_by_extension() {
    assert_eq!(replay_format("seg.jsonl"), Some("jsonl"));
    assert_eq!(replay_format("seg.mfne"), Some("mfne"));
    assert_eq!(replay_format("notes.txt"), None);
}

#[test]
fn listing_is_sorted_by_name() {
    let files = vec![info("c.jsonl"), info("a.mfne"), info("b.jsonl"), info("a.jsonl"), info("B.jsonl")];
    let sorted = sort_by_name(files);
    let names: Vec<&str> = sorted.iter().map(|f| f.name.as_str()).collect();
    assert_eq!(names, vec!["B.jsonl", "a.jsonl", "a.mfne", "b.jsonl", "c.jsonl"]);
    assert!(sort_by_name(Vec::new()).is_empty());
}

#[test]
fn read_windows() {
    assert_eq!(replay_limit(0), 1);
    assert_eq!(replay_limit(100), 100);
    assert_eq!(replay_limit(10_000), 500);
    assert_eq!(replay_window(10, 3, 4), (3, 7));
    assert_eq!(replay_window(10, 8, 4), (8, 10));
    assert_eq!(replay_window(10, 50, 4), (10, 10));
    assert_eq!(replay_window(0, 0, 1), (0, 0));
}

#[test]
fn fixed_point_text() {
    assert_eq!(format_fixed(Fixed { coefficient: 12345, scale: 2 }), "123.45");
    assert_eq!(format_fixed(Fixed { coefficient: -5, scale: 3 }), "-0.005");
    assert_eq!(format_fixed(Fixed { coefficient: 42, scale: 0 }), "42");
    assert_eq!(format_fixed(Fixed { coefficient: 0, scale: 2 }), "0.00");
    assert_eq!(format_fixed(Fixed { coefficient: 100, scale: 2 }), "1.00");
    assert_eq!(format_fixed(Fixed { coefficient: i128::MIN, scale: 0 }), "-170141183460469231731687303715884105728");
}

#[test]
fn fixed_point_products_and_parts() {
    let p = Fixed { coefficient: 10050, scale: 2 };
    let q = Fixed { coefficient: 2, scale: 1 };
    let n = fixed_mul(p, q).unwrap();
    assert_eq!(n, Fixed { coefficient: 20100, scale: 3 });
    assert_eq!(format_fixed(n), "20.100");
    assert_eq!(fixed_mul(Fixed { coefficient: 1, scale: 200 }, Fixed { coefficient: 1, scale: 100 }), None);
    assert_eq!(fixed_mul(Fixed { coefficient: i128::MAX, scale: 0 }, Fixed { coefficient: 2, scale: 0 }), None);
    assert_eq!(fixed_from_parts(5, 0, 2), Fixed { coefficient: 5, scale: 2 });
    assert_eq!(fixed_from_parts(-1, -1, 0), Fixed { coefficient: -1, scale: 0 });
    assert_eq!(fixed_from_parts(0, 1, 0), Fixed { coefficient: 1i128 << 64, scale: 0 });
    assert_eq!(fixed_from_parts(7, 0, 258), Fixed { coefficient: 7, scale: 2 });
}

fn parts(lo: i64, scale: u64) -> Option<FixedParts> {
    Some(FixedParts { lo: Some(lo), hi: None, scale: Some(scale) })
}

fn trade_env(price: Option<FixedParts>, qty: Option<FixedParts>, receive: Option<i64>) -> ReplayEnvelope {
    ReplayEnvelope {
        payload: ReplayPayload::Trade { price, quantity: qty, aggressor: None, trade_id: Some("7".into()) },
        exchange_ts_ns: Some(5),
        receive_ts_ns: receive,
    }
}

#[test]
fn replay_trades_become_rows_with_notional() {
    let row = replay_row(&trade_env(parts(10050, 2), parts(2, 0), Some(9))).unwrap();
    assert_eq!(
        row,
        ReplayRow::Trade {
            price: "100.50".into(),
            quantity: "2".into(),
            notional: Some("201.00".into()),
            aggressor: "unknown".into(),
            trade_id: Some("7".into()),
            exchange_ts_ns: Some(5),
            receive_ts_ns: 9,
        }
    );
    // Missing receive time shows as 0; a missing price drops the record.
    match replay_row(&trade_env(parts(1, 0), parts(1, 0), None)).unwrap() {
        ReplayRow::Trade { receive_ts_ns, .. } => assert_eq!(receive_ts_ns, 0),
        other => panic!("unexpected {other:?}"),
    }
    assert_eq!(replay_row(&trade_env(None, parts(1, 0), None)), None);
    let no_scale = Some(FixedParts { lo: Some(1), hi: None, scale: None });
    assert_eq!(replay_row(&trade_env(no_scale, parts(1, 0), None)), None);
    let other = ReplayEnvelope { payload: ReplayPayload::Other, exchange_ts_ns: None, receive_ts_ns: None };
    assert_eq!(replay_row(&other), None);
}

#[test]
fn replay_quotes_and_high_halves() {
    let env = ReplayEnvelope {
        payload: ReplayPayload::Quote {
            bid_price: Some(FixedParts { lo: Some(0), hi: Some(1), scale: Some(0) }),
            bid_quantity: None,
            ask_price: Some(FixedParts { lo: Some(-5), hi: Some(-1), scale: Some(2) }),
            ask_quantity: parts(3, 1),
        },
        exchange_ts_ns: None,
        receive_ts_ns: Some(1),
    };
    assert_eq!(
        replay_row(&env).unwrap(),
        ReplayRow::Quote {
            bid_price: "18446744073709551616".into(),
            bid_quantity: None,
            ask_price: "-0.05".into(),
            ask_quantity: Some("0.3".into()),
            exchange_ts_ns: None,
            receive_ts_ns: 1,
        }
    );
    // Without its high half a negative low half reads as a large positive coefficient.
    let env = ReplayEnvelope {
        payload: ReplayPayload::Quote { bid_price: parts(-5, 2), bid_quantity: None, ask_price: parts(1, 0), ask_quantity: None },
        exchange_ts_ns: None,
        receive_ts_ns: None,
    };
    match replay_row(&env).unwrap() {
        ReplayRow::Quote { bid_price, .. } => assert_eq!(bid_price, "184467440737095516.11"),
        other => panic!("unexpected {other:?}"),
    }
}

#[test]
fn replay_pages_window_the_records() {
    let records: Vec<ReplayEnvelope> = (0..5)
        .map(|i| if i == 2 {
            ReplayEnvelope { payload: ReplayPayload::Other, exchange_ts_ns: None, receive_ts_ns: None }
        } else {
            trade_env(parts(i, 0), parts(1, 0), Some(i))
        })
        .collect();
    let (total, rows) = replay_page(&records, 1, 3);
    assert_eq!(total, 5);
    assert_eq!(rows.len(), 2);
    let (_, none) = replay_page(&records, 10, 3);
    assert!(none.is_empty());
    let (_, one) = replay_page(&records, 0, 0);
    assert_eq!(one.len(), 1);
}
