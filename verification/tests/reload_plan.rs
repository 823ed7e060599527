use marketfeed_daemon::config::{
    DaemonConfig, EngineConfig, PrivateConfig, ReadinessConfig, RecordingConfig, TelemetryConfig,
};
use marketfeed_daemon::reload::{classify_reload, ReloadableConfig};
use marketfeed_daemon::venue_config::VenueConfig;

fn sample() -> DaemonConfig {
    let mut telemetry = TelemetryConfig::default();
    telemetry.bind = "127.0.0.1:9108".to_string();
    telemetry.log_level = "info".to_string();
    DaemonConfig {
        engine: EngineConfig::default(),
        telemetry,
        readiness: ReadinessConfig::default(),
        recording: RecordingConfig::default(),
        private: PrivateConfig::default(),
        venues: vec![VenueConfig {
            id: "syn".to_string(),
            adapter: "synthetic".to_string(),
            segment: None,
            required: true,
            transport: None,
            symbols: Vec::new(),
            channels: Vec::new(),
            api_key: None,
            api_secret: None,
            passphrase: None,
        }],
        sinks: Vec::new(),
    }
}

#[test]
fn noop_when_identical() {
    let cfg = sample();
    let applied = ReloadableConfig::from_daemon(&cfg);
    assert!(classify_reload(&cfg, &applied, &cfg).is_noop());
}

#[test]
fn applies_log_level_and_readiness() {
    let base = sample();
    let applied = ReloadableConfig::from_daemon(&base);
    let mut new = base.clone();
    new.telemetry.log_level = "debug".into();
    new.readiness.min_live_sessions = 2;
    let plan = classify_reload(&base, &applied, &new);
    assert_eq!(plan.apply_log_level.as_deref(), Some("debug"));
    assert_eq!(plan.apply_readiness.unwrap().min_live_sessions, 2);
    assert!(plan.restart_required.is_empty());
}

#[test]
fn venues_require_restart() {
    let base = sample();
    let applied = ReloadableConfig::from_daemon(&base);
    let mut new = base.clone();
    new.venues[0].id = "other".into();
    let plan = classify_reload(&base, &applied, &new);
    assert!(plan.restart_required.contains(&"venues"));
    assert!(plan.apply_log_level.is_none());
}

#[test]
fn runtime_profile_requires_restart() {
    let base = sample();
    let applied = ReloadableConfig::from_daemon(&base);
    let mut new = base.clone();
    new.engine.runtime_profile = "latency".into();
    let plan = classify_reload(&base, &applied, &new);
    assert_eq!(plan.restart_required, vec!["engine.runtime_profile"]);
}

#[test]
fn mixed_applies_safe_and_flags_unsafe() {
    let base = sample();
    let applied = ReloadableConfig::from_daemon(&base);
    let mut new = base.clone();
    new.telemetry.log_level = "warn".into();
    new.telemetry.bind = "127.0.0.1:9999".into();
    let plan = classify_reload(&base, &applied, &new);
    assert_eq!(plan.apply_log_level.as_deref(), Some("warn"));
    assert!(plan.restart_required.contains(&"telemetry.bind"));
}

#[test]
fn applied_knobs_settle_and_every_frozen_key_is_listed_in_order() {
    let base = sample();
    let mut new = base.clone();
    new.telemetry.log_level = "trace".into();
    let applied = ReloadableConfig::from_daemon(&base);
    let plan = classify_reload(&base, &applied, &new);
    assert!(!plan.is_noop());
    let after = ReloadableConfig { log_level: plan.apply_log_level.clone().unwrap(), readiness: applied.readiness };
    assert!(classify_reload(&base, &after, &new).is_noop());

    let mut all = base.clone();
    all.engine.shutdown_deadline_secs += 1;
    all.telemetry.log_format = "text".into();
    all.telemetry.ui_tape_capacity = 8;
    all.recording.raw.enabled = true;
    all.private.okx_spot.enabled = true;
    all.sinks.push(marketfeed_daemon::sink_config::SinkConfig {
        id: None,
        required: false,
        sink_type: "memory".into(),
        path: None,
        address: None,
        topic: None,
        subject: None,
        capacity: 1,
        overflow: "drop_newest".into(),
        wal_limit: None,
    });
    let plan = classify_reload(&base, &applied, &all);
    assert_eq!(
        plan.restart_required,
        vec!["engine.shutdown_deadline_secs", "telemetry.log_format", "telemetry.ui", "recording", "private", "sinks"]
    );
}
