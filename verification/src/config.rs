//! Daemon configuration: the typed model of the TOML file, its defaults, and the
//! field-level parsers (sizes, durations, overflow policies, sink and venue kinds).
//! Whole-file validation is in `validate`.

use vstd::prelude::*;
use std::time::Duration;

use crate::queue::OverflowPolicy;
use crate::sink_config::SinkConfig;
use crate::venue_config::VenueConfig;
use crate::text::{
    all_digits, ascii_lower, chars, chars_are, concat2, concat3, debug_quoted, debug_text, decimal, digits_value, ends_with,
    is_digit, is_ws, lemma_decimal_digits, lemma_trim_end_take, lemma_trim_start_skip, lower, lower_chars, parse_u64,
    parse_u64_chars, starts_with, str_ends_with, string_of, trim, trim_bounds, trim_end, trim_start, trim_str,
};

verus! {

pub open spec fn opt_view(o: Option<String>) -> Option<Seq<char>> {
    match o {
        Some(s) => Some(s@),
        None => None,
    }
}

/// The whole daemon configuration.
#[derive(Clone)]
pub struct DaemonConfig {
    pub engine: EngineConfig,
    pub telemetry: TelemetryConfig,
    pub readiness: ReadinessConfig,
    pub recording: RecordingConfig,
    /// Optional private user-data sessions (credentials from env only).
    pub private: PrivateConfig,
    pub venues: Vec<VenueConfig>,
    /// Optional external event consumers. Empty means null-drain.
    pub sinks: Vec<SinkConfig>,
}

/// Private-account sessions. Secrets must never appear in TOML, only enable flags.
#[derive(Clone)]
pub struct PrivateConfig {
    pub binance_spot: PrivateBinanceSpotConfig,
    pub okx_spot: PrivateOkxSpotConfig,
    pub bybit_spot: PrivateBybitSpotConfig,
}

/// Reserved Binance Spot private-stream configuration; `enabled = true` is rejected.
#[derive(Clone)]
pub struct PrivateBinanceSpotConfig {
    pub enabled: bool,
    pub api_key: Option<String>,
    pub api_secret: Option<String>,
    pub binance_api_key: Option<String>,
    pub binance_api_secret: Option<String>,
}

/// OKX Spot private WS; credentials come from the process environment only.
#[derive(Clone)]
pub struct PrivateOkxSpotConfig {
    pub enabled: bool,
    pub api_key: Option<String>,
    pub api_secret: Option<String>,
    pub passphrase: Option<String>,
    pub okx_api_key: Option<String>,
    pub okx_api_secret: Option<String>,
    pub okx_api_passphrase: Option<String>,
}

/// Bybit Spot private WS; credentials come from the process environment only.
#[derive(Clone)]
pub struct PrivateBybitSpotConfig {
    pub enabled: bool,
    pub api_key: Option<String>,
    pub api_secret: Option<String>,
    pub bybit_api_key: Option<String>,
    pub bybit_api_secret: Option<String>,
}

impl PrivateBinanceSpotConfig {
    pub open spec fn spec_has_toml_secrets(&self) -> bool {
        self.api_key is Some || self.api_secret is Some || self.binance_api_key is Some
            || self.binance_api_secret is Some
    }

    /// True when any secret-bearing field was present in TOML (validation must fail).
    pub fn has_toml_secrets(&self) -> (b: bool)
        ensures
            b == self.spec_has_toml_secrets(),
    {
        self.api_key.is_some() || self.api_secret.is_some() || self.binance_api_key.is_some()
            || self.binance_api_secret.is_some()
    }
}

impl PrivateOkxSpotConfig {
    pub open spec fn spec_has_toml_secrets(&self) -> bool {
        self.api_key is Some || self.api_secret is Some || self.passphrase is Some
            || self.okx_api_key is Some || self.okx_api_secret is Some || self.okx_api_passphrase is Some
    }

    pub fn has_toml_secrets(&self) -> (b: bool)
        ensures
            b == self.spec_has_toml_secrets(),
    {
        self.api_key.is_some() || self.api_secret.is_some() || self.passphrase.is_some()
            || self.okx_api_key.is_some() || self.okx_api_secret.is_some()
            || self.okx_api_passphrase.is_some()
    }
}

impl PrivateBybitSpotConfig {
    pub open spec fn spec_has_toml_secrets(&self) -> bool {
        self.api_key is Some || self.api_secret is Some || self.bybit_api_key is Some
            || self.bybit_api_secret is Some
    }

    pub fn has_toml_secrets(&self) -> (b: bool)
        ensures
            b == self.spec_has_toml_secrets(),
    {
        self.api_key.is_some() || self.api_secret.is_some() || self.bybit_api_key.is_some()
            || self.bybit_api_secret.is_some()
    }
}

/// How a possibly-secret optional field is shown: `Some("<redacted>")` or `None`.
pub open spec fn redacted_field(o: Option<String>) -> Seq<char> {
    if o is Some {
        "Some(\"<redacted>\")"@
    } else {
        "None"@
    }
}

pub fn redacted(o: &Option<String>) -> (s: &'static str)
    ensures
        s@ == redacted_field(*o),
{
    if o.is_some() {
        "Some(\"<redacted>\")"
    } else {
        "None"
    }
}

pub open spec fn bool_text(b: bool) -> Seq<char> {
    if b {
        "true"@
    } else {
        "false"@
    }
}

pub fn bool_str(b: bool) -> (s: &'static str)
    ensures
        s@ == bool_text(b),
{
    if b {
        "true"
    } else {
        "false"
    }
}

impl PrivateBinanceSpotConfig {
    pub open spec fn redacted_text(&self) -> Seq<char> {
        "PrivateBinanceSpotConfig { enabled: "@ + bool_text(self.enabled) + ", api_key: "@ + redacted_field(
            self.api_key,
        ) + ", api_secret: "@ + redacted_field(self.api_secret) + ", binance_api_key: "@
            + redacted_field(self.binance_api_key) + ", binance_api_secret: "@ + redacted_field(
            self.binance_api_secret,
        ) + " }"@
    }

    /// The `Debug` text of the section, with every credential shown as `<redacted>`.
    pub fn redacted_debug(&self) -> (s: String)
        ensures
            s@ == self.redacted_text(),
    {
        let mut s = String::from_str("PrivateBinanceSpotConfig { enabled: ");
        s.append(bool_str(self.enabled));
        s.append(", api_key: ");
        s.append(redacted(&self.api_key));
        s.append(", api_secret: ");
        s.append(redacted(&self.api_secret));
        s.append(", binance_api_key: ");
        s.append(redacted(&self.binance_api_key));
        s.append(", binance_api_secret: ");
        s.append(redacted(&self.binance_api_secret));
        s.append(" }");
        s
    }
}

impl PrivateOkxSpotConfig {
    pub open spec fn redacted_text(&self) -> Seq<char> {
        "PrivateOkxSpotConfig { enabled: "@ + bool_text(self.enabled) + ", api_key: "@ + redacted_field(
            self.api_key,
        ) + ", api_secret: "@ + redacted_field(self.api_secret) + ", passphrase: "@ + redacted_field(
            self.passphrase,
        ) + ", okx_api_key: "@ + redacted_field(self.okx_api_key) + ", okx_api_secret: "@
            + redacted_field(self.okx_api_secret) + ", okx_api_passphrase: "@ + redacted_field(
            self.okx_api_passphrase,
        ) + " }"@
    }

    /// The `Debug` text of the section, with every credential shown as `<redacted>`.
    pub fn redacted_debug(&self) -> (s: String)
        ensures
            s@ == self.redacted_text(),
    {
        let mut s = String::from_str("PrivateOkxSpotConfig { enabled: ");
        s.append(bool_str(self.enabled));
        s.append(", api_key: ");
        s.append(redacted(&self.api_key));
        s.append(", api_secret: ");
        s.append(redacted(&self.api_secret));
        s.append(", passphrase: ");
        s.append(redacted(&self.passphrase));
        s.append(", okx_api_key: ");
        s.append(redacted(&self.okx_api_key));
        s.append(", okx_api_secret: ");
        s.append(redacted(&self.okx_api_secret));
        s.append(", okx_api_passphrase: ");
        s.append(redacted(&self.okx_api_passphrase));
        s.append(" }");
        s
    }
}

impl PrivateBybitSpotConfig {
    pub open spec fn redacted_text(&self) -> Seq<char> {
        "PrivateBybitSpotConfig { enabled: "@ + bool_text(self.enabled) + ", api_key: "@ + redacted_field(
            self.api_key,
        ) + ", api_secret: "@ + redacted_field(self.api_secret) + ", bybit_api_key: "@
            + redacted_field(self.bybit_api_key) + ", bybit_api_secret: "@ + redacted_field(
            self.bybit_api_secret,
        ) + " }"@
    }

    /// The `Debug` text of the section, with every credential shown as `<redacted>`.
    pub fn redacted_debug(&self) -> (s: String)
        ensures
            s@ == self.redacted_text(),
    {
        let mut s = String::from_str("PrivateBybitSpotConfig { enabled: ");
        s.append(bool_str(self.enabled));
        s.append(", api_key: ");
        s.append(redacted(&self.api_key));
        s.append(", api_secret: ");
        s.append(redacted(&self.api_secret));
        s.append(", bybit_api_key: ");
        s.append(redacted(&self.bybit_api_key));
        s.append(", bybit_api_secret: ");
        s.append(redacted(&self.bybit_api_secret));
        s.append(" }");
        s
    }
}

#[derive(Clone)]
pub struct EngineConfig {
    pub runtime_profile: String,
    pub shutdown_deadline_secs: u64,
}

pub fn default_profile() -> (s: String)
    ensures
        s@ == "portable"@,
{
    String::from_str("portable")
}

pub fn default_shutdown_secs() -> (n: u64)
    ensures
        n == 20,
{
    20
}

#[derive(Clone)]
pub struct TelemetryConfig {
    pub log_format: String,
    pub log_level: String,
    pub bind: String,
    /// Separate listener for the view API; unset means the health listener serves it.
    pub ui_bind: Option<String>,
    pub ui_tape_capacity: u32,
    pub ui_tape_max_per_sec: u32,
    pub ui_static_dir: Option<String>,
    pub grafana_base_url: Option<String>,
    pub alert_webhook_url: Option<String>,
    pub replay_dir: Option<String>,
}

pub fn default_log_format() -> (s: String)
    ensures
        s@ == "json"@,
{
    String::from_str("json")
}

pub fn default_log_level() -> (s: String)
    ensures
        s@ == "info"@,
{
    String::from_str("info")
}

pub fn default_bind() -> (s: String)
    ensures
        s@ == "127.0.0.1:9108"@,
{
    String::from_str("127.0.0.1:9108")
}

pub fn default_ui_tape_capacity() -> (n: u32)
    ensures
        n == 256,
{
    256
}

pub fn default_ui_tape_max_per_sec() -> (n: u32)
    ensures
        n == 50,
{
    50
}

#[derive(Debug, Clone, Copy, PartialEq, Eq, Structural)]
pub struct ReadinessConfig {
    pub require_running: bool,
    pub require_required_venues: bool,
    pub min_live_sessions: u32,
    pub require_recording_healthy: bool,
}

pub fn default_true() -> (b: bool)
    ensures
        b,
{
    true
}

#[derive(Clone)]
pub struct RecordingConfig {
    pub raw: RawRecordingConfig,
}

#[derive(Clone)]
pub struct RawRecordingConfig {
    pub enabled: bool,
    pub directory: String,
    /// Human size (`64MiB`) or integer bytes.
    pub segment_size: String,
    /// Human duration (`15m`) or integer seconds.
    pub segment_duration: String,
    pub queue_capacity: usize,
    pub overflow: String,
    /// Human size or integer bytes; `0` disables.
    pub min_free_space: String,
}

pub fn default_raw_dir() -> (s: String)
    ensures
        s@ == "./raw"@,
{
    String::from_str("./raw")
}

pub fn default_segment_size() -> (s: String)
    ensures
        s@ == "256MiB"@,
{
    String::from_str("256MiB")
}

pub fn default_segment_duration() -> (s: String)
    ensures
        s@ == "15m"@,
{
    String::from_str("15m")
}

pub fn default_queue_capacity() -> (n: usize)
    ensures
        n == 8192,
{
    8192
}

/// Largest queue a single daemon-owned queue may reserve.
pub const MAX_DAEMON_QUEUE_CAPACITY: usize = 1_048_576;
/// Largest number of configured sinks.
pub const MAX_DAEMON_SINKS: usize = 64;
/// Process-wide cap for eagerly reserved queue slots: every sink owns one worker
/// mailbox plus its batch and system queues.
pub const MAX_DAEMON_EAGER_QUEUE_SLOTS: usize = 1_048_576;
pub const EAGER_QUEUES_PER_SINK: usize = 3;
pub const EAGER_QUEUES_FOR_RECORDING: usize = 2;

pub fn default_overflow() -> (s: String)
    ensures
        s@ == "fail_engine"@,
{
    String::from_str("fail_engine")
}

pub fn default_min_free() -> (s: String)
    ensures
        s@ == "0"@,
{
    String::from_str("0")
}

pub fn default_sink_capacity() -> (n: usize)
    ensures
        n == 1024,
{
    1024
}

impl Default for EngineConfig {
    fn default() -> (c: Self)
        ensures
            c.runtime_profile@ == "portable"@,
            c.shutdown_deadline_secs == 20,
    {
        EngineConfig { runtime_profile: default_profile(), shutdown_deadline_secs: default_shutdown_secs() }
    }
}

impl Default for TelemetryConfig {
    fn default() -> (c: Self)
        ensures
            c.log_format@ == "json"@,
            c.log_level@ == "info"@,
            c.bind@ == "127.0.0.1:9108"@,
            c.ui_bind is None,
            c.ui_tape_capacity == 256,
            c.ui_tape_max_per_sec == 50,
            c.ui_static_dir is None,
            c.grafana_base_url is None,
            c.alert_webhook_url is None,
            c.replay_dir is None,
    {
        TelemetryConfig {
            log_format: default_log_format(),
            log_level: default_log_level(),
            bind: default_bind(),
            ui_bind: None,
            ui_tape_capacity: default_ui_tape_capacity(),
            ui_tape_max_per_sec: default_ui_tape_max_per_sec(),
            ui_static_dir: None,
            grafana_base_url: None,
            alert_webhook_url: None,
            replay_dir: None,
        }
    }
}

impl Default for ReadinessConfig {
    fn default() -> (c: Self)
        ensures
            c.require_running,
            c.require_required_venues,
            c.min_live_sessions == 0,
            !c.require_recording_healthy,
    {
        ReadinessConfig {
            require_running: true,
            require_required_venues: true,
            min_live_sessions: 0,
            require_recording_healthy: false,
        }
    }
}

impl Default for RawRecordingConfig {
    fn default() -> (c: Self)
        ensures
            !c.enabled,
            c.directory@ == "./raw"@,
            c.segment_size@ == "256MiB"@,
            c.segment_duration@ == "15m"@,
            c.queue_capacity == 8192,
            c.overflow@ == "fail_engine"@,
            c.min_free_space@ == "0"@,
    {
        RawRecordingConfig {
            enabled: false,
            directory: default_raw_dir(),
            segment_size: default_segment_size(),
            segment_duration: default_segment_duration(),
            queue_capacity: default_queue_capacity(),
            overflow: default_overflow(),
            min_free_space: default_min_free(),
        }
    }
}

impl Default for RecordingConfig {
    fn default() -> (c: Self)
        ensures
            !c.raw.enabled,
            c.raw.directory@ == "./raw"@,
            c.raw.segment_size@ == "256MiB"@,
            c.raw.segment_duration@ == "15m"@,
            c.raw.queue_capacity == 8192,
            c.raw.overflow@ == "fail_engine"@,
            c.raw.min_free_space@ == "0"@,
    {
        RecordingConfig { raw: RawRecordingConfig::default() }
    }
}

impl Default for PrivateBinanceSpotConfig {
    fn default() -> (c: Self)
        ensures
            !c.enabled,
            !c.spec_has_toml_secrets(),
    {
        PrivateBinanceSpotConfig {
            enabled: false,
            api_key: None,
            api_secret: None,
            binance_api_key: None,
            binance_api_secret: None,
        }
    }
}

impl Default for PrivateOkxSpotConfig {
    fn default() -> (c: Self)
        ensures
            !c.enabled,
            !c.spec_has_toml_secrets(),
    {
        PrivateOkxSpotConfig {
            enabled: false,
            api_key: None,
            api_secret: None,
            passphrase: None,
            okx_api_key: None,
            okx_api_secret: None,
            okx_api_passphrase: None,
        }
    }
}

impl Default for PrivateBybitSpotConfig {
    fn default() -> (c: Self)
        ensures
            !c.enabled,
            !c.spec_has_toml_secrets(),
    {
        PrivateBybitSpotConfig {
            enabled: false,
            api_key: None,
            api_secret: None,
            bybit_api_key: None,
            bybit_api_secret: None,
        }
    }
}

impl Default for PrivateConfig {
    fn default() -> (c: Self)
        ensures
            !c.binance_spot.enabled && !c.binance_spot.spec_has_toml_secrets(),
            !c.okx_spot.enabled && !c.okx_spot.spec_has_toml_secrets(),
            !c.bybit_spot.enabled && !c.bybit_spot.spec_has_toml_secrets(),
    {
        PrivateConfig {
            binance_spot: PrivateBinanceSpotConfig::default(),
            okx_spot: PrivateOkxSpotConfig::default(),
            bybit_spot: PrivateBybitSpotConfig::default(),
        }
    }
}

impl Default for DaemonConfig {
    fn default() -> (c: Self)
        ensures
            c.venues@.len() == 0,
            c.sinks@.len() == 0,
            c.engine.runtime_profile@ == "portable"@,
            c.engine.shutdown_deadline_secs == 20,
            c.telemetry.bind@ == "127.0.0.1:9108"@,
            c.telemetry.log_format@ == "json"@,
            c.telemetry.log_level@ == "info"@,
            c.readiness.require_running && c.readiness.require_required_venues,
            c.readiness.min_live_sessions == 0 && !c.readiness.require_recording_healthy,
            !c.recording.raw.enabled,
            !c.private.binance_spot.enabled && !c.private.binance_spot.spec_has_toml_secrets(),
            !c.private.okx_spot.enabled && !c.private.okx_spot.spec_has_toml_secrets(),
            !c.private.bybit_spot.enabled && !c.private.bybit_spot.spec_has_toml_secrets(),
    {
        DaemonConfig {
            engine: EngineConfig::default(),
            telemetry: TelemetryConfig::default(),
            readiness: ReadinessConfig::default(),
            recording: RecordingConfig::default(),
            private: PrivateConfig::default(),
            venues: Vec::new(),
            sinks: Vec::new(),
        }
    }
}

/// Credentials never reach the `Debug` text of a private section: two sections that
/// differ only in the values of their credentials (present in both or absent in both)
/// print the same.
pub proof fn lemma_private_debug_hides_credentials(a: PrivateConfig, b: PrivateConfig)
    requires
        a.binance_spot.enabled == b.binance_spot.enabled,
        a.binance_spot.api_key is Some <==> b.binance_spot.api_key is Some,
        a.binance_spot.api_secret is Some <==> b.binance_spot.api_secret is Some,
        a.binance_spot.binance_api_key is Some <==> b.binance_spot.binance_api_key is Some,
        a.binance_spot.binance_api_secret is Some <==> b.binance_spot.binance_api_secret is Some,
        a.okx_spot.enabled == b.okx_spot.enabled,
        a.okx_spot.api_key is Some <==> b.okx_spot.api_key is Some,
        a.okx_spot.api_secret is Some <==> b.okx_spot.api_secret is Some,
        a.okx_spot.passphrase is Some <==> b.okx_spot.passphrase is Some,
        a.okx_spot.okx_api_key is Some <==> b.okx_spot.okx_api_key is Some,
        a.okx_spot.okx_api_secret is Some <==> b.okx_spot.okx_api_secret is Some,
        a.okx_spot.okx_api_passphrase is Some <==> b.okx_spot.okx_api_passphrase is Some,
        a.bybit_spot.enabled == b.bybit_spot.enabled,
        a.bybit_spot.api_key is Some <==> b.bybit_spot.api_key is Some,
        a.bybit_spot.api_secret is Some <==> b.bybit_spot.api_secret is Some,
        a.bybit_spot.bybit_api_key is Some <==> b.bybit_spot.bybit_api_key is Some,
        a.bybit_spot.bybit_api_secret is Some <==> b.bybit_spot.bybit_api_secret is Some,
    ensures
        a.binance_spot.redacted_text() == b.binance_spot.redacted_text(),
        a.okx_spot.redacted_text() == b.okx_spot.redacted_text(),
        a.bybit_spot.redacted_text() == b.bybit_spot.redacted_text(),
{
}

/// A configuration problem, with its message.
#[derive(Debug, PartialEq, Eq)]
pub enum ConfigError {
    Io(String),
    Parse(String),
    Validation(String),
}

impl ConfigError {
    pub open spec fn spec_message(&self) -> Seq<char> {
        match self {
            ConfigError::Io(m) => "read config: "@ + m@,
            ConfigError::Parse(m) => "parse TOML: "@ + m@,
            ConfigError::Validation(m) => "validation: "@ + m@,
        }
    }

    /// The text the error displays.
    pub fn message(&self) -> (s: String)
        ensures
            s@ == self.spec_message(),
    {
        match self {
            ConfigError::Io(m) => concat2("read config: ", m.as_str()),
            ConfigError::Parse(m) => concat2("parse TOML: ", m.as_str()),
            ConfigError::Validation(m) => concat2("validation: ", m.as_str()),
        }
    }
}

/// `ConfigError::Validation` with the message `m`.
pub open spec fn is_validation(e: ConfigError, m: Seq<char>) -> bool {
    e matches ConfigError::Validation(s) && s@ == m
}

// ---------------------------------------------------------------------------
// Sizes, durations and overflow policies.

/// `s` with every `_` removed.
pub open spec fn without_underscores(s: Seq<char>) -> Seq<char> {
    s.filter(|c: char| c != '_')
}

/// Splits a lowercased size into its number part and the multiplier its unit names.
pub open spec fn size_unit(l: Seq<char>) -> (Seq<char>, u64) {
    if ends_with(l, "gib"@) {
        (l.take(l.len() - 3), 1073741824)
    } else if ends_with(l, "gb"@) {
        (l.take(l.len() - 2), 1000000000)
    } else if ends_with(l, "mib"@) {
        (l.take(l.len() - 3), 1048576)
    } else if ends_with(l, "mb"@) {
        (l.take(l.len() - 2), 1000000)
    } else if ends_with(l, "kib"@) {
        (l.take(l.len() - 3), 1024)
    } else if ends_with(l, "kb"@) {
        (l.take(l.len() - 2), 1000)
    } else if ends_with(l, "b"@) {
        (l.take(l.len() - 1), 1)
    } else {
        (l, 1)
    }
}

pub open spec fn saturating_mul(a: u64, b: u64) -> u64 {
    if a * b > u64::MAX { u64::MAX } else { (a * b) as u64 }
}

/// What `parse_bytes` returns for `raw`.
pub open spec fn bytes_spec(raw: Seq<char>) -> Result<u64, Seq<char>> {
    let s = without_underscores(trim(raw));
    if s.len() == 0 {
        Err("empty"@)
    } else {
        let (num, mult) = size_unit(lower(s));
        match parse_u64(trim(num)) {
            Some(n) => Ok(saturating_mul(n, mult)),
            None => Err("invalid byte size "@ + debug_text(s)),
        }
    }
}

/// Splits a lowercased duration into its number part and the seconds its unit names.
pub open spec fn duration_unit(l: Seq<char>) -> (Seq<char>, u64) {
    if ends_with(l, "h"@) {
        (l.take(l.len() - 1), 3600)
    } else if ends_with(l, "m"@) {
        (l.take(l.len() - 1), 60)
    } else if ends_with(l, "s"@) {
        (l.take(l.len() - 1), 1)
    } else {
        (l, 1)
    }
}

/// The number of seconds `parse_duration` reads from `raw`.
pub open spec fn duration_secs_spec(raw: Seq<char>) -> Result<u64, Seq<char>> {
    let s = trim(raw);
    if s.len() == 0 {
        Err("empty"@)
    } else {
        let (num, mult) = duration_unit(lower(s));
        match parse_u64(trim(num)) {
            Some(n) => Ok(saturating_mul(n, mult)),
            None => Err("invalid duration "@ + debug_text(s)),
        }
    }
}

// ---------------------------------------------------------------------------
// What sizes and durations read as.

/// The multiplier of a lowercased size unit: `b` or none is one byte, `kb`/`mb`/`gb`
/// powers of 1000, `kib`/`mib`/`gib` powers of 1024.
pub open spec fn byte_unit(u: Seq<char>) -> Option<u64> {
    if u == ""@ || u == "b"@ {
        Some(1)
    } else if u == "kb"@ {
        Some(1000)
    } else if u == "kib"@ {
        Some(1024)
    } else if u == "mb"@ {
        Some(1000000)
    } else if u == "mib"@ {
        Some(1048576)
    } else if u == "gb"@ {
        Some(1000000000)
    } else if u == "gib"@ {
        Some(1073741824)
    } else {
        None
    }
}

/// The seconds of a lowercased duration unit: `h`, `m`, `s`, or none for seconds.
pub open spec fn duration_unit_secs(u: Seq<char>) -> Option<u64> {
    if u == ""@ || u == "s"@ {
        Some(1)
    } else if u == "m"@ {
        Some(60)
    } else if u == "h"@ {
        Some(3600)
    } else {
        None
    }
}

pub open spec fn all_ws(s: Seq<char>) -> bool {
    forall|i: int| 0 <= i < s.len() ==> is_ws(#[trigger] s[i])
}

proof fn lemma_trim_padded(pre: Seq<char>, t: Seq<char>, post: Seq<char>)
    requires
        all_ws(pre),
        all_ws(post),
        t.len() > 0,
        !is_ws(t[0]),
        !is_ws(t.last()),
    ensures
        trim(pre + t + post) == t,
{
    let x = pre + t + post;
    lemma_trim_start_skip(x, pre.len() as int);
    assert(x.skip(pre.len() as int) =~= t + post);
    assert((t + post)[0] == t[0]);
    assert(trim_start(t + post) == t + post);
    lemma_trim_end_take(t + post, t.len() as int);
    assert((t + post).take(t.len() as int) =~= t);
}

proof fn lemma_no_underscores(t: Seq<char>)
    requires
        forall|i: int| 0 <= i < t.len() ==> t[i] != '_',
    ensures
        without_underscores(t) == t,
    decreases t.len(),
{
    reveal(Seq::filter);
    if t.len() > 0 {
        lemma_no_underscores(t.drop_last());
        assert(t.drop_last().push(t.last()) =~= t);
    }
}

/// A unit as written: its letters lowered give the unit.
proof fn lemma_written_unit(written: Seq<char>, unit: Seq<char>)
    requires
        lower(written) == unit,
        forall|i: int| 0 <= i < unit.len() ==> 'a' <= #[trigger] unit[i] <= 'z',
    ensures
        written.len() == unit.len(),
        forall|i: int| 0 <= i < written.len() ==> !is_ws(#[trigger] written[i]) && written[i] != '_' && !is_digit(written[i]),
{
    assert forall|i: int| 0 <= i < written.len() implies !is_ws(#[trigger] written[i]) && written[i] != '_' && !is_digit(
        written[i],
    ) by {
        assert(unit[i] == ascii_lower(written[i]));
    }
}

/// The number and its unit, lowered.
proof fn lemma_lower_number_unit(n: nat, written: Seq<char>, unit: Seq<char>)
    requires
        lower(written) == unit,
    ensures
        lower(decimal(n) + written) == decimal(n) + unit,
{
    lemma_decimal_digits(n);
    let d = decimal(n);
    assert forall|i: int| 0 <= i < (d + written).len() implies #[trigger] lower(d + written)[i] == (d + unit)[i] by {
        if i < d.len() {
            assert(is_digit(d[i]));
        } else {
            assert(unit[i - d.len()] == ascii_lower(written[i - d.len()]));
        }
    }
    assert(lower(d + written) =~= d + unit);
}

/// The digits of a number read back as the number.
proof fn lemma_parse_decimal(n: u64)
    ensures
        parse_u64(decimal(n as nat)) == Some(n),
{
    lemma_decimal_digits(n as nat);
    assert(is_digit(decimal(n as nat)[0]));
}

proof fn lemma_not_ends(s: Seq<char>, p: Seq<char>, i: int)
    requires
        0 <= i < p.len(),
        p.len() <= s.len() ==> s[s.len() - p.len() + i] != p[i],
    ensures
        !ends_with(s, p),
{
    if ends_with(s, p) {
        assert(s.subrange(s.len() - p.len(), s.len() as int)[i] == p[i]);
    }
}

proof fn lemma_ends(d: Seq<char>, u: Seq<char>)
    ensures
        ends_with(d + u, u),
{
    assert((d + u).subrange(d.len() as int, (d + u).len() as int) =~= u);
}

/// What `size_unit` makes of a number followed by a unit of the table.
proof fn lemma_size_unit(d: Seq<char>, u: Seq<char>)
    requires
        d.len() >= 1,
        all_digits(d),
        byte_unit(u) is Some,
    ensures
        size_unit(d + u) == (d, byte_unit(u)->Some_0),
{
    reveal_strlit("");
    reveal_strlit("b");
    reveal_strlit("kb");
    reveal_strlit("kib");
    reveal_strlit("mb");
    reveal_strlit("mib");
    reveal_strlit("gb");
    reveal_strlit("gib");
    let l = d + u;
    let n = l.len();
    assert(is_digit(d.last()));
    assert(l[d.len() - 1] == d.last());
    // A pattern longer than the unit meets the last digit.
    // Distinct units of the table differ in length or in some letter.
    assert(""@.len() == 0 && "b"@.len() == 1 && "kb"@.len() == 2 && "mb"@.len() == 2 && "gb"@.len() == 2);
    assert("kib"@.len() == 3 && "mib"@.len() == 3 && "gib"@.len() == 3);
    assert("kb"@[0] != "mb"@[0] && "kb"@[0] != "gb"@[0] && "mb"@[0] != "gb"@[0]);
    assert("kib"@[0] != "mib"@[0] && "kib"@[0] != "gib"@[0] && "mib"@[0] != "gib"@[0]);
    if u == "gib"@ {
        lemma_ends(d, u);
    } else if u == "gb"@ {
        lemma_not_ends(l, "gib"@, 0);
        lemma_ends(d, u);
    } else if u == "mib"@ {
        lemma_not_ends(l, "gib"@, 0);
        lemma_not_ends(l, "gb"@, 0);
        lemma_ends(d, u);
    } else if u == "mb"@ {
        lemma_not_ends(l, "gib"@, 0);
        lemma_not_ends(l, "gb"@, 0);
        lemma_not_ends(l, "mib"@, 0);
        lemma_ends(d, u);
    } else if u == "kib"@ {
        lemma_not_ends(l, "gib"@, 0);
        lemma_not_ends(l, "gb"@, 0);
        lemma_not_ends(l, "mib"@, 0);
        lemma_not_ends(l, "mb"@, 0);
        lemma_ends(d, u);
    } else if u == "kb"@ {
        lemma_not_ends(l, "gib"@, 0);
        lemma_not_ends(l, "gb"@, 0);
        lemma_not_ends(l, "mib"@, 0);
        lemma_not_ends(l, "mb"@, 0);
        lemma_not_ends(l, "kib"@, 0);
        lemma_ends(d, u);
    } else if u == "b"@ {
        lemma_not_ends(l, "gib"@, 1);
        lemma_not_ends(l, "gb"@, 0);
        lemma_not_ends(l, "mib"@, 1);
        lemma_not_ends(l, "mb"@, 0);
        lemma_not_ends(l, "kib"@, 1);
        lemma_not_ends(l, "kb"@, 0);
        lemma_ends(d, u);
    } else {
        assert(u == ""@);
        assert(l =~= d);
        lemma_not_ends(l, "gib"@, 2);
        lemma_not_ends(l, "gb"@, 1);
        lemma_not_ends(l, "mib"@, 2);
        lemma_not_ends(l, "mb"@, 1);
        lemma_not_ends(l, "kib"@, 2);
        lemma_not_ends(l, "kb"@, 1);
        lemma_not_ends(l, "b"@, 0);
    }
    assert(l.take(l.len() - u.len()) =~= d);
}

/// A size written as a whole number and a unit of `byte_unit`, in any letter case and
/// with whitespace around it, reads as the number times the unit, stopping at
/// `u64::MAX` rather than wrapping.
pub proof fn lemma_bytes_read_with_units(n: u64, written: Seq<char>, unit: Seq<char>, pre: Seq<char>, post: Seq<char>)
    requires
        byte_unit(unit) is Some,
        lower(written) == unit,
        all_ws(pre),
        all_ws(post),
    ensures
        bytes_spec(pre + decimal(n as nat) + written + post) == Ok::<u64, Seq<char>>(
            saturating_mul(n, byte_unit(unit)->Some_0),
        ),
{
    reveal_strlit("");
    reveal_strlit("b");
    reveal_strlit("kb");
    reveal_strlit("kib");
    reveal_strlit("mb");
    reveal_strlit("mib");
    reveal_strlit("gb");
    reveal_strlit("gib");
    let d = decimal(n as nat);
    lemma_decimal_digits(n as nat);
    lemma_written_unit(written, unit);
    let t = d + written;
    assert(t[0] == d[0] && is_digit(d[0]));
    assert(!is_ws(t.last())) by {
        if written.len() > 0 {
            assert(t.last() == written[written.len() - 1]);
        } else {
            assert(t.last() == d.last());
            assert(is_digit(d[d.len() - 1]));
        }
    }
    assert(pre + d + written + post =~= pre + t + post);
    lemma_trim_padded(pre, t, post);
    assert forall|i: int| 0 <= i < t.len() implies t[i] != '_' by {
        if i < d.len() {
            assert(is_digit(d[i]));
        } else {
            assert(t[i] == written[i - d.len()]);
        }
    }
    lemma_no_underscores(t);
    lemma_lower_number_unit(n as nat, written, unit);
    lemma_size_unit(d, unit);
    lemma_trim_padded(Seq::empty(), d, Seq::empty());
    assert(Seq::<char>::empty() + d + Seq::<char>::empty() =~= d);
    lemma_parse_decimal(n);
}

/// What `duration_unit` makes of a number followed by a unit of the table.
proof fn lemma_duration_unit(d: Seq<char>, u: Seq<char>)
    requires
        d.len() >= 1,
        all_digits(d),
        duration_unit_secs(u) is Some,
    ensures
        duration_unit(d + u) == (d, duration_unit_secs(u)->Some_0),
{
    reveal_strlit("");
    reveal_strlit("h");
    reveal_strlit("m");
    reveal_strlit("s");
    let l = d + u;
    assert(is_digit(d.last()));
    assert(l[d.len() - 1] == d.last());
    if u == "h"@ {
        lemma_ends(d, u);
        assert(l.take(l.len() - 1) =~= d);
        assert(duration_unit(l) == (d, 3600u64));
        assert(u[0] != "s"@[0] && u[0] != "m"@[0]);
        assert(u.len() != ""@.len());
        assert(duration_unit_secs(u) == Some(3600u64));
    } else if u == "m"@ {
        lemma_not_ends(l, "h"@, 0);
        lemma_ends(d, u);
        assert(l.take(l.len() - 1) =~= d);
        assert(duration_unit(l) == (d, 60u64));
        assert(u[0] != "s"@[0]);
        assert(u.len() != ""@.len());
        assert(duration_unit_secs(u) == Some(60u64));
    } else if u == "s"@ {
        lemma_not_ends(l, "h"@, 0);
        lemma_not_ends(l, "m"@, 0);
        lemma_ends(d, u);
        assert(l.take(l.len() - 1) =~= d);
        assert(duration_unit(l) == (d, 1u64));
    } else {
        assert(u =~= Seq::<char>::empty());
        assert(l =~= d);
        lemma_not_ends(l, "h"@, 0);
        lemma_not_ends(l, "m"@, 0);
        lemma_not_ends(l, "s"@, 0);
        assert(duration_unit(l) == (d, 1u64));
    }
}

/// A duration written as a whole number and a unit of `duration_unit_secs`, in any
/// letter case and with whitespace around it, reads as that many seconds (stopping at
/// `u64::MAX`); blank text is "empty", and any other text that does not read is an
/// "invalid duration".
pub proof fn lemma_duration_read_with_units(n: u64, written: Seq<char>, unit: Seq<char>, pre: Seq<char>, post: Seq<char>, raw: Seq<char>)
    requires
        duration_unit_secs(unit) is Some,
        lower(written) == unit,
        all_ws(pre),
        all_ws(post),
    ensures
        duration_secs_spec(pre + decimal(n as nat) + written + post) == Ok::<u64, Seq<char>>(
            saturating_mul(n, duration_unit_secs(unit)->Some_0),
        ),
        (duration_secs_spec(raw) == Err::<u64, Seq<char>>("empty"@)) <==> trim(raw).len() == 0,
        trim(raw).len() > 0 && duration_secs_spec(raw) is Err ==> starts_with(
            duration_secs_spec(raw)->Err_0,
            "invalid duration"@,
        ),
{
    reveal_strlit("");
    reveal_strlit("h");
    reveal_strlit("m");
    reveal_strlit("s");
    reveal_strlit("empty");
    reveal_strlit("invalid duration");
    reveal_strlit("invalid duration ");
    let d = decimal(n as nat);
    lemma_decimal_digits(n as nat);
    lemma_written_unit(written, unit);
    let t = d + written;
    assert(t[0] == d[0] && is_digit(d[0]));
    assert(!is_ws(t.last())) by {
        if written.len() > 0 {
            assert(t.last() == written[written.len() - 1]);
        } else {
            assert(t.last() == d.last());
            assert(is_digit(d[d.len() - 1]));
        }
    }
    assert(pre + d + written + post =~= pre + t + post);
    lemma_trim_padded(pre, t, post);
    lemma_lower_number_unit(n as nat, written, unit);
    lemma_duration_unit(d, unit);
    lemma_trim_padded(Seq::empty(), d, Seq::empty());
    assert(Seq::<char>::empty() + d + Seq::<char>::empty() =~= d);
    lemma_parse_decimal(n);
    if trim(raw).len() > 0 {
        let m = "invalid duration "@ + debug_text(trim(raw));
        assert(m.subrange(0, 16) =~= "invalid duration"@);
        if duration_secs_spec(raw) is Err {
            assert(duration_secs_spec(raw)->Err_0 == m);
            assert(m[0] == 'i');
            assert("empty"@[0] == 'e');
        }
    }
}

/// The `Duration` of `secs` whole seconds.
pub uninterp spec fn secs_duration(secs: u64) -> Duration;

/// `Duration::from_secs`.
#[verifier::external_body]
fn duration_from_secs(secs: u64) -> (d: Duration)
    ensures
        d == secs_duration(secs),
{
    Duration::from_secs(secs)
}

/// Copies `v[from..to]`.
fn slice_chars(v: &Vec<char>, from: usize, to: usize) -> (r: Vec<char>)
    requires
        from <= to <= v.len(),
    ensures
        r@ == v@.subrange(from as int, to as int),
{
    let mut r: Vec<char> = Vec::new();
    let mut i: usize = from;
    while i < to
        invariant
            from <= i <= to <= v.len(),
            r@ == v@.subrange(from as int, i as int),
        decreases to - i,
    {
        r.push(v[i]);
        i += 1;
        assert(r@ =~= v@.subrange(from as int, i as int));
    }
    r
}

/// Copies `v[from..to]`.
pub fn slice_chars_pub(v: &Vec<char>, from: usize, to: usize) -> (r: Vec<char>)
    requires
        from <= to <= v.len(),
    ensures
        r@ == v@.subrange(from as int, to as int),
{
    slice_chars(v, from, to)
}

/// `trim` over characters.
fn trim_chars(v: &Vec<char>) -> (r: Vec<char>)
    ensures
        r@ == trim(v@),
{
    let (a, b) = trim_bounds(v);
    slice_chars(v, a, b)
}

/// Whether `v` ends with the literal `suffix`.
fn chars_end_with(v: &Vec<char>, suffix: &str) -> (r: bool)
    ensures
        r == ends_with(v@, suffix@),
{
    let s = string_of(v);
    str_ends_with(s.as_str(), suffix)
}

fn remove_underscores(v: &Vec<char>) -> (r: Vec<char>)
    ensures
        r@ == without_underscores(v@),
{
    let mut r: Vec<char> = Vec::new();
    let mut i: usize = 0;
    while i < v.len()
        invariant
            i <= v.len(),
            r@ == without_underscores(v@.take(i as int)),
        decreases v.len() - i,
    {
        proof {
            assert(v@.take(i + 1) =~= v@.take(i as int).push(v@[i as int]));
            v@.take(i as int).lemma_filter_push(v@[i as int], |c: char| c != '_');
        }
        if v[i] != '_' {
            r.push(v[i]);
        }
        i += 1;
    }
    assert(v@.take(v.len() as int) =~= v@);
    r
}

fn lower_of(v: &Vec<char>) -> (r: Vec<char>)
    ensures
        r@ == lower(v@),
{
    let s = string_of(v);
    lower_chars(s.as_str())
}

fn sat_mul(a: u64, b: u64) -> (r: u64)
    ensures
        r == saturating_mul(a, b),
{
    if a == 0 {
        return 0;
    }
    if b > u64::MAX / a {
        proof {
            assert(a * b > u64::MAX) by (nonlinear_arith)
                requires a > 0, b > u64::MAX / a;
        }
        u64::MAX
    } else {
        proof {
            assert(a * b <= u64::MAX) by (nonlinear_arith)
                requires a > 0, b <= u64::MAX / a;
        }
        a * b
    }
}

/// Parses `64MiB`, `1GiB`, `1024`, `1_000_000`.
pub fn parse_bytes(s: &str) -> (r: Result<u64, String>)
    ensures
        match bytes_spec(s@) {
            Ok(n) => r == Ok::<u64, String>(n),
            Err(m) => r matches Err(e) && e@ == m,
        },
{
    let raw = chars(s);
    let t = trim_chars(&raw);
    let st = remove_underscores(&t);
    if st.len() == 0 {
        return Err(String::from_str("empty"));
    }
    let l = lower_of(&st);
    proof {
        reveal_strlit("gib");
        reveal_strlit("gb");
        reveal_strlit("mib");
        reveal_strlit("mb");
        reveal_strlit("kib");
        reveal_strlit("kb");
        reveal_strlit("b");
    }
    let (num, mult): (Vec<char>, u64) = if chars_end_with(&l, "gib") {
        (slice_chars(&l, 0, l.len() - 3), 1073741824)
    } else if chars_end_with(&l, "gb") {
        (slice_chars(&l, 0, l.len() - 2), 1000000000)
    } else if chars_end_with(&l, "mib") {
        (slice_chars(&l, 0, l.len() - 3), 1048576)
    } else if chars_end_with(&l, "mb") {
        (slice_chars(&l, 0, l.len() - 2), 1000000)
    } else if chars_end_with(&l, "kib") {
        (slice_chars(&l, 0, l.len() - 3), 1024)
    } else if chars_end_with(&l, "kb") {
        (slice_chars(&l, 0, l.len() - 2), 1000)
    } else if chars_end_with(&l, "b") {
        (slice_chars(&l, 0, l.len() - 1), 1)
    } else {
        (slice_chars(&l, 0, l.len()), 1)
    };
    proof {
        assert(l@.subrange(0, l@.len() as int) =~= l@);
        let (sn, sm) = size_unit(lower(st@));
        assert(num@ =~= sn);
        assert(mult == sm);
    }
    let tn = trim_chars(&num);
    match parse_u64_chars(&tn) {
        Some(n) => Ok(sat_mul(n, mult)),
        None => {
            let shown = string_of(&st);
            let q = debug_quoted(shown.as_str());
            Err(concat2("invalid byte size ", q.as_str()))
        },
    }
}

/// The number of seconds in `15m`, `1h`, `30s`, or an integer.
pub fn parse_duration_secs(s: &str) -> (r: Result<u64, String>)
    ensures
        match duration_secs_spec(s@) {
            Ok(n) => r == Ok::<u64, String>(n),
            Err(m) => r matches Err(e) && e@ == m,
        },
{
    let raw = chars(s);
    let t = trim_chars(&raw);
    if t.len() == 0 {
        return Err(String::from_str("empty"));
    }
    let l = lower_of(&t);
    proof {
        reveal_strlit("h");
        reveal_strlit("m");
        reveal_strlit("s");
    }
    let (num, mult): (Vec<char>, u64) = if chars_end_with(&l, "h") {
        (slice_chars(&l, 0, l.len() - 1), 3600)
    } else if chars_end_with(&l, "m") {
        (slice_chars(&l, 0, l.len() - 1), 60)
    } else if chars_end_with(&l, "s") {
        (slice_chars(&l, 0, l.len() - 1), 1)
    } else {
        (slice_chars(&l, 0, l.len()), 1)
    };
    proof {
        assert(l@.subrange(0, l@.len() as int) =~= l@);
        let (sn, sm) = duration_unit(lower(t@));
        assert(num@ =~= sn);
        assert(mult == sm);
    }
    let tn = trim_chars(&num);
    match parse_u64_chars(&tn) {
        Some(n) => Ok(sat_mul(n, mult)),
        None => {
            let shown = string_of(&t);
            let q = debug_quoted(shown.as_str());
            Err(concat2("invalid duration ", q.as_str()))
        },
    }
}

/// Parses `15m`, `1h`, `30s`, or integer seconds.
pub fn parse_duration(s: &str) -> (r: Result<Duration, String>)
    ensures
        match duration_secs_spec(s@) {
            Ok(n) => r == Ok::<Duration, String>(secs_duration(n)),
            Err(m) => r matches Err(e) && e@ == m,
        },
{
    match parse_duration_secs(s) {
        Ok(n) => Ok(duration_from_secs(n)),
        Err(e) => Err(e),
    }
}

/// What `parse_overflow` returns for `raw`.
pub open spec fn overflow_spec(raw: Seq<char>) -> Result<OverflowPolicy, Seq<char>> {
    let l = lower(trim(raw));
    if l == "fail_engine"@ || l == "fail"@ {
        Ok(OverflowPolicy::FailEngine)
    } else if l == "drop_newest"@ {
        Ok(OverflowPolicy::DropNewest)
    } else if l == "drop_oldest"@ {
        Ok(OverflowPolicy::DropOldest)
    } else if l == "block_with_deadline"@ || l == "block"@ {
        Ok(OverflowPolicy::BlockWithDeadline)
    } else if l == "spill_to_disk"@ || l == "spill"@ {
        Ok(OverflowPolicy::SpillToDisk)
    } else {
        Err("unknown overflow "@ + debug_text(l))
    }
}

/// Parses an overflow policy name (case-insensitive, surrounding whitespace ignored).
pub fn parse_overflow(s: &str) -> (r: Result<OverflowPolicy, String>)
    ensures
        match overflow_spec(s@) {
            Ok(p) => r == Ok::<OverflowPolicy, String>(p),
            Err(m) => r matches Err(e) && e@ == m,
        },
{
    let t = trim_str(s);
    let l = lower_chars(t);
    if chars_are(&l, "fail_engine") || chars_are(&l, "fail") {
        Ok(OverflowPolicy::FailEngine)
    } else if chars_are(&l, "drop_newest") {
        Ok(OverflowPolicy::DropNewest)
    } else if chars_are(&l, "drop_oldest") {
        Ok(OverflowPolicy::DropOldest)
    } else if chars_are(&l, "block_with_deadline") || chars_are(&l, "block") {
        Ok(OverflowPolicy::BlockWithDeadline)
    } else if chars_are(&l, "spill_to_disk") || chars_are(&l, "spill") {
        Ok(OverflowPolicy::SpillToDisk)
    } else {
        let shown = string_of(&l);
        let q = debug_quoted(shown.as_str());
        Err(concat2("unknown overflow ", q.as_str()))
    }
}

/// What a daemon-owned queue accepts as its overflow policy: any parsed policy but
/// `block_with_deadline`, which has no safe blocking owner in the daemon.
pub open spec fn daemon_overflow_spec(label: Seq<char>, value: Seq<char>) -> Result<OverflowPolicy, Seq<char>> {
    match overflow_spec(value) {
        Err(e) => Err(label + ": "@ + e),
        Ok(OverflowPolicy::BlockWithDeadline) => Err(label + ": block_with_deadline is unsupported by daemon-owned queues"@),
        Ok(p) => Ok(p),
    }
}

/// A daemon-owned queue never resolves to the blocking policy.
pub proof fn lemma_daemon_overflow_not_blocking(label: Seq<char>, value: Seq<char>)
    ensures
        daemon_overflow_spec(label, value) is Ok ==> daemon_overflow_spec(label, value)->Ok_0 != OverflowPolicy::BlockWithDeadline,
{
}

/// The overflow policy names are exactly these, read without surrounding whitespace and
/// in any ASCII case: `fail_engine` or `fail`; `drop_newest`; `drop_oldest`;
/// `block_with_deadline` or `block`; `spill_to_disk` or `spill`. Each names its own
/// policy, and any other name is refused.
pub proof fn lemma_overflow_names_exactly(raw: Seq<char>)
    ensures
        ({
            let l = lower(trim(raw));
            &&& overflow_spec(raw) == Ok::<OverflowPolicy, Seq<char>>(OverflowPolicy::FailEngine) <==> (l == "fail_engine"@
                || l == "fail"@)
            &&& overflow_spec(raw) == Ok::<OverflowPolicy, Seq<char>>(OverflowPolicy::DropNewest) <==> l == "drop_newest"@
            &&& overflow_spec(raw) == Ok::<OverflowPolicy, Seq<char>>(OverflowPolicy::DropOldest) <==> l == "drop_oldest"@
            &&& overflow_spec(raw) == Ok::<OverflowPolicy, Seq<char>>(OverflowPolicy::BlockWithDeadline) <==> (l
                == "block_with_deadline"@ || l == "block"@)
            &&& overflow_spec(raw) == Ok::<OverflowPolicy, Seq<char>>(OverflowPolicy::SpillToDisk) <==> (l == "spill_to_disk"@
                || l == "spill"@)
        }),
{
    reveal_strlit("fail_engine");
    reveal_strlit("fail");
    reveal_strlit("drop_newest");
    reveal_strlit("drop_oldest");
    reveal_strlit("block_with_deadline");
    reveal_strlit("block");
    reveal_strlit("spill_to_disk");
    reveal_strlit("spill");
    assert("fail_engine"@.len() == 11 && "fail"@.len() == 4 && "drop_newest"@.len() == 11 && "drop_oldest"@.len() == 11);
    assert("block_with_deadline"@.len() == 19 && "block"@.len() == 5 && "spill_to_disk"@.len() == 13 && "spill"@.len() == 5);
    assert("fail_engine"@[0] != "drop_newest"@[0] && "fail_engine"@[0] != "drop_oldest"@[0]);
    assert("drop_newest"@[5] != "drop_oldest"@[5] && "block"@[0] != "spill"@[0]);
}

pub fn daemon_overflow_policy(label: &str, value: &str) -> (r: Result<OverflowPolicy, ConfigError>)
    ensures
        match daemon_overflow_spec(label@, value@) {
            Ok(p) => r == Ok::<OverflowPolicy, ConfigError>(p),
            Err(m) => r matches Err(e) && is_validation(e, m),
        },
{
    match parse_overflow(value) {
        Err(error) => Err(ConfigError::Validation(concat3(label, ": ", error.as_str()))),
        Ok(policy) => {
            if policy == OverflowPolicy::BlockWithDeadline {
                Err(ConfigError::Validation(concat2(label, ": block_with_deadline is unsupported by daemon-owned queues")))
            } else {
                Ok(policy)
            }
        },
    }
}

impl RawRecordingConfig {
    pub open spec fn segment_size_spec(&self) -> Result<u64, Seq<char>> {
        match bytes_spec(self.segment_size@) {
            Ok(n) => Ok(n),
            Err(e) => Err("recording.raw.segment_size: "@ + e),
        }
    }

    pub open spec fn segment_duration_spec(&self) -> Result<u64, Seq<char>> {
        match duration_secs_spec(self.segment_duration@) {
            Ok(n) => Ok(n),
            Err(e) => Err("recording.raw.segment_duration: "@ + e),
        }
    }

    pub open spec fn min_free_spec(&self) -> Result<u64, Seq<char>> {
        match bytes_spec(self.min_free_space@) {
            Ok(n) => Ok(n),
            Err(e) => Err("recording.raw.min_free_space: "@ + e),
        }
    }

    pub open spec fn overflow_policy_spec(&self) -> Result<OverflowPolicy, Seq<char>> {
        daemon_overflow_spec("recording.raw.overflow"@, self.overflow@)
    }

    pub fn segment_size_bytes(&self) -> (r: Result<u64, ConfigError>)
        ensures
            match self.segment_size_spec() {
                Ok(n) => r == Ok::<u64, ConfigError>(n),
                Err(m) => r matches Err(e) && is_validation(e, m),
            },
    {
        match parse_bytes(self.segment_size.as_str()) {
            Ok(n) => Ok(n),
            Err(e) => Err(ConfigError::Validation(concat2("recording.raw.segment_size: ", e.as_str()))),
        }
    }

    pub fn segment_duration(&self) -> (r: Result<Duration, ConfigError>)
        ensures
            match self.segment_duration_spec() {
                Ok(n) => r == Ok::<Duration, ConfigError>(secs_duration(n)),
                Err(m) => r matches Err(e) && is_validation(e, m),
            },
    {
        match parse_duration(self.segment_duration.as_str()) {
            Ok(d) => Ok(d),
            Err(e) => Err(ConfigError::Validation(concat2("recording.raw.segment_duration: ", e.as_str()))),
        }
    }

    pub fn min_free_bytes(&self) -> (r: Result<u64, ConfigError>)
        ensures
            match self.min_free_spec() {
                Ok(n) => r == Ok::<u64, ConfigError>(n),
                Err(m) => r matches Err(e) && is_validation(e, m),
            },
    {
        match parse_bytes(self.min_free_space.as_str()) {
            Ok(n) => Ok(n),
            Err(e) => Err(ConfigError::Validation(concat2("recording.raw.min_free_space: ", e.as_str()))),
        }
    }

    pub fn overflow_policy(&self) -> (r: Result<OverflowPolicy, ConfigError>)
        ensures
            match self.overflow_policy_spec() {
                Ok(p) => r == Ok::<OverflowPolicy, ConfigError>(p),
                Err(m) => r matches Err(e) && is_validation(e, m),
            },
    {
        daemon_overflow_policy("recording.raw.overflow", self.overflow.as_str())
    }
}

} // verus!
