//! Configuration hot reload: a re-validated configuration is compared with the running
//! one. The log filter and the readiness policy apply in place; every other difference
//! needs a restart.

use vstd::prelude::*;

use crate::config::{opt_view, DaemonConfig, PrivateConfig, ReadinessConfig, RecordingConfig, TelemetryConfig};
use crate::sink_config::SinkConfig;
use crate::text::str_eq;
use crate::venue_config::VenueConfig;

verus! {

/// In-process knobs that may change without a restart.
#[derive(Debug, Clone)]
pub struct ReloadableConfig {
    pub log_level: String,
    pub readiness: ReadinessConfig,
}

impl ReloadableConfig {
    pub fn from_daemon(cfg: &DaemonConfig) -> (r: Self)
        ensures
            r.log_level@ == cfg.telemetry.log_level@,
            r.readiness == cfg.readiness,
    {
        ReloadableConfig { log_level: cfg.telemetry.log_level.clone(), readiness: cfg.readiness }
    }
}

/// Outcome of comparing a re-validated configuration against the running process.
#[derive(Debug, Clone, Default)]
pub struct ReloadPlan {
    /// New filter string when `telemetry.log_level` changed.
    pub apply_log_level: Option<String>,
    /// New readiness policy when `[readiness]` changed.
    pub apply_readiness: Option<ReadinessConfig>,
    /// Keys that validated but cannot be applied without a restart.
    pub restart_required: Vec<&'static str>,
}

impl ReloadPlan {
    pub open spec fn spec_is_noop(&self) -> bool {
        self.apply_log_level is None && self.apply_readiness is None && self.restart_required@.len() == 0
    }

    pub fn is_noop(&self) -> (b: bool)
        ensures
            b == self.spec_is_noop(),
    {
        self.apply_log_level.is_none() && self.apply_readiness.is_none() && self.restart_required.len() == 0
    }

    /// The restart keys, as text.
    pub open spec fn keys(&self) -> Seq<Seq<char>> {
        key_texts(self.restart_required@)
    }
}

// ---------------------------------------------------------------------------
// Sameness of configuration parts, by their text.

pub open spec fn same_strs(a: Seq<String>, b: Seq<String>) -> bool {
    a.len() == b.len() && forall|i: int| 0 <= i < a.len() ==> #[trigger] a[i]@ == b[i]@
}

pub open spec fn same_recording(a: RecordingConfig, b: RecordingConfig) -> bool {
    &&& a.raw.enabled == b.raw.enabled
    &&& a.raw.directory@ == b.raw.directory@
    &&& a.raw.segment_size@ == b.raw.segment_size@
    &&& a.raw.segment_duration@ == b.raw.segment_duration@
    &&& a.raw.queue_capacity == b.raw.queue_capacity
    &&& a.raw.overflow@ == b.raw.overflow@
    &&& a.raw.min_free_space@ == b.raw.min_free_space@
}

pub open spec fn same_private(a: PrivateConfig, b: PrivateConfig) -> bool {
    &&& a.binance_spot.enabled == b.binance_spot.enabled
    &&& opt_view(a.binance_spot.api_key) == opt_view(b.binance_spot.api_key)
    &&& opt_view(a.binance_spot.api_secret) == opt_view(b.binance_spot.api_secret)
    &&& opt_view(a.binance_spot.binance_api_key) == opt_view(b.binance_spot.binance_api_key)
    &&& opt_view(a.binance_spot.binance_api_secret) == opt_view(b.binance_spot.binance_api_secret)
    &&& a.okx_spot.enabled == b.okx_spot.enabled
    &&& opt_view(a.okx_spot.api_key) == opt_view(b.okx_spot.api_key)
    &&& opt_view(a.okx_spot.api_secret) == opt_view(b.okx_spot.api_secret)
    &&& opt_view(a.okx_spot.passphrase) == opt_view(b.okx_spot.passphrase)
    &&& opt_view(a.okx_spot.okx_api_key) == opt_view(b.okx_spot.okx_api_key)
    &&& opt_view(a.okx_spot.okx_api_secret) == opt_view(b.okx_spot.okx_api_secret)
    &&& opt_view(a.okx_spot.okx_api_passphrase) == opt_view(b.okx_spot.okx_api_passphrase)
    &&& a.bybit_spot.enabled == b.bybit_spot.enabled
    &&& opt_view(a.bybit_spot.api_key) == opt_view(b.bybit_spot.api_key)
    &&& opt_view(a.bybit_spot.api_secret) == opt_view(b.bybit_spot.api_secret)
    &&& opt_view(a.bybit_spot.bybit_api_key) == opt_view(b.bybit_spot.bybit_api_key)
    &&& opt_view(a.bybit_spot.bybit_api_secret) == opt_view(b.bybit_spot.bybit_api_secret)
}

pub open spec fn same_venue(a: VenueConfig, b: VenueConfig) -> bool {
    &&& a.id@ == b.id@
    &&& a.adapter@ == b.adapter@
    &&& opt_view(a.segment) == opt_view(b.segment)
    &&& a.required == b.required
    &&& a.transport == b.transport
    &&& same_strs(a.symbols@, b.symbols@)
    &&& same_strs(a.channels@, b.channels@)
    &&& opt_view(a.api_key) == opt_view(b.api_key)
    &&& opt_view(a.api_secret) == opt_view(b.api_secret)
    &&& opt_view(a.passphrase) == opt_view(b.passphrase)
}

pub open spec fn same_venues(a: Seq<VenueConfig>, b: Seq<VenueConfig>) -> bool {
    a.len() == b.len() && forall|i: int| 0 <= i < a.len() ==> #[trigger] same_venue(a[i], b[i])
}

pub open spec fn same_sink(a: SinkConfig, b: SinkConfig) -> bool {
    &&& opt_view(a.id) == opt_view(b.id)
    &&& a.required == b.required
    &&& a.sink_type@ == b.sink_type@
    &&& opt_view(a.path) == opt_view(b.path)
    &&& opt_view(a.address) == opt_view(b.address)
    &&& opt_view(a.topic) == opt_view(b.topic)
    &&& opt_view(a.subject) == opt_view(b.subject)
    &&& a.capacity == b.capacity
    &&& a.overflow@ == b.overflow@
    &&& opt_view(a.wal_limit) == opt_view(b.wal_limit)
}

pub open spec fn same_sinks(a: Seq<SinkConfig>, b: Seq<SinkConfig>) -> bool {
    a.len() == b.len() && forall|i: int| 0 <= i < a.len() ==> #[trigger] same_sink(a[i], b[i])
}

pub open spec fn same_ui(a: TelemetryConfig, b: TelemetryConfig) -> bool {
    &&& opt_view(a.ui_bind) == opt_view(b.ui_bind)
    &&& a.ui_tape_capacity == b.ui_tape_capacity
    &&& a.ui_tape_max_per_sec == b.ui_tape_max_per_sec
    &&& opt_view(a.ui_static_dir) == opt_view(b.ui_static_dir)
}

fn opt_eq(a: &Option<String>, b: &Option<String>) -> (r: bool)
    ensures
        r == (opt_view(*a) == opt_view(*b)),
{
    match (a, b) {
        (Some(x), Some(y)) => str_eq(x.as_str(), y.as_str()),
        (None, None) => true,
        _ => false,
    }
}

fn strs_eq(a: &Vec<String>, b: &Vec<String>) -> (r: bool)
    ensures
        r == same_strs(a@, b@),
{
    if a.len() != b.len() {
        return false;
    }
    let mut i: usize = 0;
    while i < a.len()
        invariant
            a.len() == b.len(),
            i <= a.len(),
            forall|k: int| 0 <= k < i ==> #[trigger] a@[k]@ == b@[k]@,
        decreases a.len() - i,
    {
        if !str_eq(a[i].as_str(), b[i].as_str()) {
            return false;
        }
        i += 1;
    }
    true
}

fn recording_eq(a: &RecordingConfig, b: &RecordingConfig) -> (r: bool)
    ensures
        r == same_recording(*a, *b),
{
    a.raw.enabled == b.raw.enabled && str_eq(a.raw.directory.as_str(), b.raw.directory.as_str())
        && str_eq(a.raw.segment_size.as_str(), b.raw.segment_size.as_str())
        && str_eq(a.raw.segment_duration.as_str(), b.raw.segment_duration.as_str())
        && a.raw.queue_capacity == b.raw.queue_capacity
        && str_eq(a.raw.overflow.as_str(), b.raw.overflow.as_str())
        && str_eq(a.raw.min_free_space.as_str(), b.raw.min_free_space.as_str())
}

fn private_eq(a: &PrivateConfig, b: &PrivateConfig) -> (r: bool)
    ensures
        r == same_private(*a, *b),
{
    a.binance_spot.enabled == b.binance_spot.enabled && opt_eq(&a.binance_spot.api_key, &b.binance_spot.api_key)
        && opt_eq(&a.binance_spot.api_secret, &b.binance_spot.api_secret)
        && opt_eq(&a.binance_spot.binance_api_key, &b.binance_spot.binance_api_key)
        && opt_eq(&a.binance_spot.binance_api_secret, &b.binance_spot.binance_api_secret)
        && a.okx_spot.enabled == b.okx_spot.enabled && opt_eq(&a.okx_spot.api_key, &b.okx_spot.api_key)
        && opt_eq(&a.okx_spot.api_secret, &b.okx_spot.api_secret)
        && opt_eq(&a.okx_spot.passphrase, &b.okx_spot.passphrase)
        && opt_eq(&a.okx_spot.okx_api_key, &b.okx_spot.okx_api_key)
        && opt_eq(&a.okx_spot.okx_api_secret, &b.okx_spot.okx_api_secret)
        && opt_eq(&a.okx_spot.okx_api_passphrase, &b.okx_spot.okx_api_passphrase)
        && a.bybit_spot.enabled == b.bybit_spot.enabled && opt_eq(&a.bybit_spot.api_key, &b.bybit_spot.api_key)
        && opt_eq(&a.bybit_spot.api_secret, &b.bybit_spot.api_secret)
        && opt_eq(&a.bybit_spot.bybit_api_key, &b.bybit_spot.bybit_api_key)
        && opt_eq(&a.bybit_spot.bybit_api_secret, &b.bybit_spot.bybit_api_secret)
}

fn venue_eq(a: &VenueConfig, b: &VenueConfig) -> (r: bool)
    ensures
        r == same_venue(*a, *b),
{
    str_eq(a.id.as_str(), b.id.as_str()) && str_eq(a.adapter.as_str(), b.adapter.as_str())
        && opt_eq(&a.segment, &b.segment) && a.required == b.required && a.transport == b.transport
        && strs_eq(&a.symbols, &b.symbols) && strs_eq(&a.channels, &b.channels)
        && opt_eq(&a.api_key, &b.api_key) && opt_eq(&a.api_secret, &b.api_secret)
        && opt_eq(&a.passphrase, &b.passphrase)
}

fn venues_eq(a: &Vec<VenueConfig>, b: &Vec<VenueConfig>) -> (r: bool)
    ensures
        r == same_venues(a@, b@),
{
    if a.len() != b.len() {
        return false;
    }
    let mut i: usize = 0;
    while i < a.len()
        invariant
            a.len() == b.len(),
            i <= a.len(),
            forall|k: int| 0 <= k < i ==> #[trigger] same_venue(a@[k], b@[k]),
        decreases a.len() - i,
    {
        if !venue_eq(&a[i], &b[i]) {
            return false;
        }
        i += 1;
    }
    true
}

fn sink_eq(a: &SinkConfig, b: &SinkConfig) -> (r: bool)
    ensures
        r == same_sink(*a, *b),
{
    opt_eq(&a.id, &b.id) && a.required == b.required && str_eq(a.sink_type.as_str(), b.sink_type.as_str())
        && opt_eq(&a.path, &b.path) && opt_eq(&a.address, &b.address) && opt_eq(&a.topic, &b.topic)
        && opt_eq(&a.subject, &b.subject) && a.capacity == b.capacity
        && str_eq(a.overflow.as_str(), b.overflow.as_str()) && opt_eq(&a.wal_limit, &b.wal_limit)
}

fn sinks_eq(a: &Vec<SinkConfig>, b: &Vec<SinkConfig>) -> (r: bool)
    ensures
        r == same_sinks(a@, b@),
{
    if a.len() != b.len() {
        return false;
    }
    let mut i: usize = 0;
    while i < a.len()
        invariant
            a.len() == b.len(),
            i <= a.len(),
            forall|k: int| 0 <= k < i ==> #[trigger] same_sink(a@[k], b@[k]),
        decreases a.len() - i,
    {
        if !sink_eq(&a[i], &b[i]) {
            return false;
        }
        i += 1;
    }
    true
}

// ---------------------------------------------------------------------------
// Classification.

pub open spec fn key_if(changed: bool, key: Seq<char>) -> Seq<Seq<char>> {
    if changed { seq![key] } else { seq![] }
}

/// The keys whose change needs a restart, in the order they are reported.
pub open spec fn restart_keys(base: DaemonConfig, new: DaemonConfig) -> Seq<Seq<char>> {
    key_if(new.engine.runtime_profile@ != base.engine.runtime_profile@, "engine.runtime_profile"@)
        + key_if(new.engine.shutdown_deadline_secs != base.engine.shutdown_deadline_secs, "engine.shutdown_deadline_secs"@)
        + key_if(new.telemetry.log_format@ != base.telemetry.log_format@, "telemetry.log_format"@)
        + key_if(new.telemetry.bind@ != base.telemetry.bind@, "telemetry.bind"@)
        + key_if(!same_ui(new.telemetry, base.telemetry), "telemetry.ui"@)
        + key_if(!same_recording(new.recording, base.recording), "recording"@)
        + key_if(!same_private(new.private, base.private), "private"@)
        + key_if(!same_venues(new.venues@, base.venues@), "venues"@)
        + key_if(!same_sinks(new.sinks@, base.sinks@), "sinks"@)
}

/// The log filter the plan applies: the new one, when it differs from the applied one.
pub open spec fn planned_log_level(applied: ReloadableConfig, new: DaemonConfig) -> Option<Seq<char>> {
    if new.telemetry.log_level@ != applied.log_level@ { Some(new.telemetry.log_level@) } else { None }
}

/// The readiness policy the plan applies: the new one, when it differs from the applied one.
pub open spec fn planned_readiness(applied: ReloadableConfig, new: DaemonConfig) -> Option<ReadinessConfig> {
    if new.readiness != applied.readiness { Some(new.readiness) } else { None }
}

pub open spec fn key_texts(keys: Seq<&'static str>) -> Seq<Seq<char>> {
    keys.map_values(|k: &'static str| k@)
}

fn push_key_if(keys: &mut Vec<&'static str>, changed: bool, key: &'static str)
    ensures
        key_texts(final(keys)@) == key_texts(old(keys)@) + key_if(changed, key@),
{
    if changed {
        keys.push(key);
        assert(key_texts(keys@) =~= key_texts(old(keys)@) + key_if(changed, key@));
    } else {
        assert(key_texts(keys@) =~= key_texts(old(keys)@) + key_if(changed, key@));
    }
}

fn ui_eq(a: &TelemetryConfig, b: &TelemetryConfig) -> (r: bool)
    ensures
        r == same_ui(*a, *b),
{
    opt_eq(&a.ui_bind, &b.ui_bind) && a.ui_tape_capacity == b.ui_tape_capacity
        && a.ui_tape_max_per_sec == b.ui_tape_max_per_sec && opt_eq(&a.ui_static_dir, &b.ui_static_dir)
}

fn restart_list(base: &DaemonConfig, new: &DaemonConfig) -> (keys: Vec<&'static str>)
    ensures
        key_texts(keys@) == restart_keys(*base, *new),
{
    let mut keys: Vec<&'static str> = Vec::new();
    let ghost mut acc: Seq<Seq<char>> = Seq::empty();
    assert(key_texts(keys@) =~= acc);
    let c1 = !str_eq(new.engine.runtime_profile.as_str(), base.engine.runtime_profile.as_str());
    push_key_if(&mut keys, c1, "engine.runtime_profile");
    let c2 = new.engine.shutdown_deadline_secs != base.engine.shutdown_deadline_secs;
    push_key_if(&mut keys, c2, "engine.shutdown_deadline_secs");
    let c3 = !str_eq(new.telemetry.log_format.as_str(), base.telemetry.log_format.as_str());
    push_key_if(&mut keys, c3, "telemetry.log_format");
    let c4 = !str_eq(new.telemetry.bind.as_str(), base.telemetry.bind.as_str());
    push_key_if(&mut keys, c4, "telemetry.bind");
    let c5 = !ui_eq(&new.telemetry, &base.telemetry);
    push_key_if(&mut keys, c5, "telemetry.ui");
    let c6 = !recording_eq(&new.recording, &base.recording);
    push_key_if(&mut keys, c6, "recording");
    let c7 = !private_eq(&new.private, &base.private);
    push_key_if(&mut keys, c7, "private");
    let c8 = !venues_eq(&new.venues, &base.venues);
    push_key_if(&mut keys, c8, "venues");
    let c9 = !sinks_eq(&new.sinks, &base.sinks);
    push_key_if(&mut keys, c9, "sinks");
    keys
}

/// Classifies a newly loaded (already validated) configuration against process state.
///
/// `base` is the start-of-process configuration (venues, sinks and recording are
/// frozen); `applied` holds the reloadable knobs, which may already differ from `base`.
pub fn classify_reload(base: &DaemonConfig, applied: &ReloadableConfig, new: &DaemonConfig) -> (plan: ReloadPlan)
    ensures
        opt_view(plan.apply_log_level) == planned_log_level(*applied, *new),
        plan.apply_readiness == planned_readiness(*applied, *new),
        plan.keys() == restart_keys(*base, *new),
{
    let mut plan = ReloadPlan { apply_log_level: None, apply_readiness: None, restart_required: Vec::new() };
    if !str_eq(new.telemetry.log_level.as_str(), applied.log_level.as_str()) {
        plan.apply_log_level = Some(new.telemetry.log_level.clone());
    }
    if new.readiness != applied.readiness {
        plan.apply_readiness = Some(new.readiness);
    }
    let keys = restart_list(base, new);
    plan.restart_required = keys;
    plan
}

/// Classifying a configuration against itself, with the knobs taken from it, plans
/// nothing.
pub proof fn lemma_identical_config_is_noop(cfg: DaemonConfig)
    ensures
        planned_log_level((ReloadableConfig { log_level: cfg.telemetry.log_level, readiness: cfg.readiness }), cfg) is None,
        planned_readiness((ReloadableConfig { log_level: cfg.telemetry.log_level, readiness: cfg.readiness }), cfg) is None,
        restart_keys(cfg, cfg).len() == 0,
{
    assert(same_ui(cfg.telemetry, cfg.telemetry));
    assert(same_recording(cfg.recording, cfg.recording));
    assert(same_private(cfg.private, cfg.private));
    assert(same_venues(cfg.venues@, cfg.venues@));
    assert(same_sinks(cfg.sinks@, cfg.sinks@));
}

/// Applying a plan's knobs and classifying the same configuration again plans no
/// further in-place change: applying is idempotent.
pub proof fn lemma_applied_plan_is_settled(applied: ReloadableConfig, new: DaemonConfig, after: ReloadableConfig)
    requires
        after.log_level@ == (match planned_log_level(applied, new) { Some(l) => l, None => applied.log_level@ }),
        after.readiness == (match planned_readiness(applied, new) { Some(r) => r, None => applied.readiness }),
    ensures
        planned_log_level(after, new) is None,
        planned_readiness(after, new) is None,
{
}

/// Only the frozen parts of a configuration can need a restart: if everything but the
/// log filter and readiness policy matches the start-of-process configuration, no
/// restart is planned.
pub proof fn lemma_reloadable_knobs_never_need_restart(base: DaemonConfig, new: DaemonConfig)
    requires
        new.engine.runtime_profile@ == base.engine.runtime_profile@,
        new.engine.shutdown_deadline_secs == base.engine.shutdown_deadline_secs,
        new.telemetry.log_format@ == base.telemetry.log_format@,
        new.telemetry.bind@ == base.telemetry.bind@,
        same_ui(new.telemetry, base.telemetry),
        same_recording(new.recording, base.recording),
        same_private(new.private, base.private),
        same_venues(new.venues@, base.venues@),
        same_sinks(new.sinks@, base.sinks@),
    ensures
        restart_keys(base, new).len() == 0,
{
}

/// The text values of a list of strings.
pub open spec fn texts(v: Seq<String>) -> Seq<Seq<char>> {
    v.map_values(|x: String| x@)
}

/// A reload that asks no restart for `venues` leaves every venue as it was started:
/// the same number of venues and, for each, the same id, adapter, segment, required
/// flag, transport, symbols, channels and credentials.
pub proof fn lemma_venue_change_needs_restart(base: DaemonConfig, new: DaemonConfig)
    requires
        !restart_keys(base, new).contains("venues"@),
    ensures
        new.venues@.len() == base.venues@.len(),
        forall|i: int| 0 <= i < new.venues@.len() ==> {
            let a = #[trigger] new.venues@[i];
            let b = base.venues@[i];
            &&& a.id@ == b.id@
            &&& a.adapter@ == b.adapter@
            &&& opt_view(a.segment) == opt_view(b.segment)
            &&& a.required == b.required
            &&& a.transport == b.transport
            &&& texts(a.symbols@) == texts(b.symbols@)
            &&& texts(a.channels@) == texts(b.channels@)
            &&& opt_view(a.api_key) == opt_view(b.api_key)
            &&& opt_view(a.api_secret) == opt_view(b.api_secret)
            &&& opt_view(a.passphrase) == opt_view(b.passphrase)
        },
{
    let before = key_if(new.engine.runtime_profile@ != base.engine.runtime_profile@, "engine.runtime_profile"@)
        + key_if(new.engine.shutdown_deadline_secs != base.engine.shutdown_deadline_secs, "engine.shutdown_deadline_secs"@)
        + key_if(new.telemetry.log_format@ != base.telemetry.log_format@, "telemetry.log_format"@)
        + key_if(new.telemetry.bind@ != base.telemetry.bind@, "telemetry.bind"@)
        + key_if(!same_ui(new.telemetry, base.telemetry), "telemetry.ui"@)
        + key_if(!same_recording(new.recording, base.recording), "recording"@)
        + key_if(!same_private(new.private, base.private), "private"@);
    let after = key_if(!same_sinks(new.sinks@, base.sinks@), "sinks"@);
    if !same_venues(new.venues@, base.venues@) {
        assert(restart_keys(base, new) =~= before + seq!["venues"@] + after);
        assert((before + seq!["venues"@] + after)[before.len() as int] == "venues"@);
        assert(false);
    }
    assert forall|i: int| 0 <= i < new.venues@.len() implies {
        let a = #[trigger] new.venues@[i];
        let b = base.venues@[i];
        &&& a.id@ == b.id@
        &&& a.adapter@ == b.adapter@
        &&& opt_view(a.segment) == opt_view(b.segment)
        &&& a.required == b.required
        &&& a.transport == b.transport
        &&& texts(a.symbols@) == texts(b.symbols@)
        &&& texts(a.channels@) == texts(b.channels@)
        &&& opt_view(a.api_key) == opt_view(b.api_key)
        &&& opt_view(a.api_secret) == opt_view(b.api_secret)
        &&& opt_view(a.passphrase) == opt_view(b.passphrase)
    } by {
        let a = new.venues@[i];
        let b = base.venues@[i];
        assert(same_venue(a, b));
        assert(texts(a.symbols@) =~= texts(b.symbols@));
        assert(texts(a.channels@) =~= texts(b.channels@));
    }
}

/// A reload that asks no restart at all finds every frozen part of the configuration as
/// it was started: the runtime profile, shutdown deadline, log format, bind address, UI
/// settings, recording, private sessions, venues and sinks, field by field.
pub proof fn lemma_no_restart_keeps_frozen_parts(base: DaemonConfig, new: DaemonConfig)
    requires
        restart_keys(base, new).len() == 0,
    ensures
        new.engine.runtime_profile@ == base.engine.runtime_profile@,
        new.engine.shutdown_deadline_secs == base.engine.shutdown_deadline_secs,
        new.telemetry.log_format@ == base.telemetry.log_format@,
        new.telemetry.bind@ == base.telemetry.bind@,
        opt_view(new.telemetry.ui_bind) == opt_view(base.telemetry.ui_bind),
        new.telemetry.ui_tape_capacity == base.telemetry.ui_tape_capacity,
        new.telemetry.ui_tape_max_per_sec == base.telemetry.ui_tape_max_per_sec,
        opt_view(new.telemetry.ui_static_dir) == opt_view(base.telemetry.ui_static_dir),
        new.recording.raw.enabled == base.recording.raw.enabled,
        new.recording.raw.directory@ == base.recording.raw.directory@,
        new.recording.raw.segment_size@ == base.recording.raw.segment_size@,
        new.recording.raw.segment_duration@ == base.recording.raw.segment_duration@,
        new.recording.raw.queue_capacity == base.recording.raw.queue_capacity,
        new.recording.raw.overflow@ == base.recording.raw.overflow@,
        new.recording.raw.min_free_space@ == base.recording.raw.min_free_space@,
        new.private.binance_spot.enabled == base.private.binance_spot.enabled,
        opt_view(new.private.binance_spot.api_key) == opt_view(base.private.binance_spot.api_key),
        opt_view(new.private.binance_spot.api_secret) == opt_view(base.private.binance_spot.api_secret),
        opt_view(new.private.binance_spot.binance_api_key) == opt_view(base.private.binance_spot.binance_api_key),
        opt_view(new.private.binance_spot.binance_api_secret) == opt_view(base.private.binance_spot.binance_api_secret),
        new.private.okx_spot.enabled == base.private.okx_spot.enabled,
        opt_view(new.private.okx_spot.api_key) == opt_view(base.private.okx_spot.api_key),
        opt_view(new.private.okx_spot.api_secret) == opt_view(base.private.okx_spot.api_secret),
        opt_view(new.private.okx_spot.passphrase) == opt_view(base.private.okx_spot.passphrase),
        opt_view(new.private.okx_spot.okx_api_key) == opt_view(base.private.okx_spot.okx_api_key),
        opt_view(new.private.okx_spot.okx_api_secret) == opt_view(base.private.okx_spot.okx_api_secret),
        opt_view(new.private.okx_spot.okx_api_passphrase) == opt_view(base.private.okx_spot.okx_api_passphrase),
        new.private.bybit_spot.enabled == base.private.bybit_spot.enabled,
        opt_view(new.private.bybit_spot.api_key) == opt_view(base.private.bybit_spot.api_key),
        opt_view(new.private.bybit_spot.api_secret) == opt_view(base.private.bybit_spot.api_secret),
        opt_view(new.private.bybit_spot.bybit_api_key) == opt_view(base.private.bybit_spot.bybit_api_key),
        opt_view(new.private.bybit_spot.bybit_api_secret) == opt_view(base.private.bybit_spot.bybit_api_secret),
        new.venues@.len() == base.venues@.len(),
        forall|i: int| 0 <= i < new.venues@.len() ==> {
            let a = #[trigger] new.venues@[i];
            let b = base.venues@[i];
            &&& a.id@ == b.id@
            &&& a.adapter@ == b.adapter@
            &&& opt_view(a.segment) == opt_view(b.segment)
            &&& a.required == b.required
            &&& a.transport == b.transport
            &&& texts(a.symbols@) == texts(b.symbols@)
            &&& texts(a.channels@) == texts(b.channels@)
            &&& opt_view(a.api_key) == opt_view(b.api_key)
            &&& opt_view(a.api_secret) == opt_view(b.api_secret)
            &&& opt_view(a.passphrase) == opt_view(b.passphrase)
        },
        new.sinks@.len() == base.sinks@.len(),
        forall|i: int| 0 <= i < new.sinks@.len() ==> {
            let a = #[trigger] new.sinks@[i];
            let b = base.sinks@[i];
            &&& opt_view(a.id) == opt_view(b.id)
            &&& a.required == b.required
            &&& a.sink_type@ == b.sink_type@
            &&& opt_view(a.path) == opt_view(b.path)
            &&& opt_view(a.address) == opt_view(b.address)
            &&& opt_view(a.topic) == opt_view(b.topic)
            &&& opt_view(a.subject) == opt_view(b.subject)
            &&& a.capacity == b.capacity
            &&& a.overflow@ == b.overflow@
            &&& opt_view(a.wal_limit) == opt_view(b.wal_limit)
        },
{
    lemma_venue_change_needs_restart(base, new);
    assert forall|i: int| 0 <= i < new.sinks@.len() implies same_sink(#[trigger] new.sinks@[i], base.sinks@[i]) by {
    }
}

} // verus!
