//! The view plane's plain data: its tunables, the JSON shapes it serves, and the small
//! computations behind `/v1/status` and `/v1/instruments`.

use vstd::prelude::*;

use crate::config::TelemetryConfig;
use crate::text::{is_blank, str_eq, trim};
use crate::venue_config::VenueConfig;

verus! {

broadcast use vstd::string::group_string_axioms;

/// Tunables for tape rings (from `[telemetry]`).
#[derive(Debug, Clone, Copy, PartialEq, Eq, Structural)]
pub struct ViewPlaneConfig {
    pub tape_capacity: usize,
    pub tape_max_per_sec: u32,
}

impl Default for ViewPlaneConfig {
    fn default() -> (c: Self)
        ensures
            c.tape_capacity == 256,
            c.tape_max_per_sec == 50,
    {
        ViewPlaneConfig { tape_capacity: 256, tape_max_per_sec: 50 }
    }
}

impl ViewPlaneConfig {
    /// The tape tunables of a configuration; a tape capacity of 0 becomes 1.
    pub fn from_telemetry(t: &TelemetryConfig) -> (c: Self)
        ensures
            c.tape_capacity == (if t.ui_tape_capacity == 0 { 1 } else { t.ui_tape_capacity as usize }),
            c.tape_max_per_sec == t.ui_tape_max_per_sec,
    {
        let cap: u32 = if t.ui_tape_capacity == 0 { 1 } else { t.ui_tape_capacity };
        ViewPlaneConfig { tape_capacity: cap as usize, tape_max_per_sec: t.ui_tape_max_per_sec }
    }
}

/// Whether catalog grid metadata came from the venue or from a placeholder.
#[derive(Debug, Clone, Copy, PartialEq, Eq, Structural)]
pub enum CatalogAuthority {
    Authoritative,
    Placeholder,
}

#[derive(Debug, Clone)]
pub struct ViewStatus {
    pub live: bool,
    pub ready: bool,
    pub uptime_secs: u64,
    pub lifecycle: String,
    pub disk_pressure: bool,
    pub shutdown_draining: bool,
    pub recording: ViewRecordingStatus,
    pub grafana_base_url: Option<String>,
    pub alert_webhook_configured: bool,
    pub venues: Vec<ViewVenueStatus>,
}

#[derive(Debug, Clone)]
pub struct ViewRecordingStatus {
    pub enabled: bool,
    pub healthy: bool,
    pub queue_len: u64,
    pub frames_dropped: u64,
}

#[derive(Debug, Clone)]
pub struct ViewVenueStatus {
    pub id: String,
    pub adapter: String,
    pub required: bool,
    pub live: bool,
    pub symbols: Vec<String>,
    pub events_dispatched: u64,
    pub events_dropped: u64,
    pub reconnects: u64,
    pub book_invalidations: u64,
    pub valid_books: u64,
    pub queue_occupancy: u64,
    pub feed_lag_ms: Option<u64>,
    pub last_event_ts_ns: Option<i64>,
    pub last_trade_ts_ns: Option<i64>,
    pub last_quote_ts_ns: Option<i64>,
    pub tape_trades: u64,
    pub tape_quotes: u64,
    pub tape_trades_dropped: u64,
    pub tape_quotes_dropped: u64,
}

#[derive(Debug, Clone)]
pub struct ViewBookSnapshot {
    pub venue: String,
    pub instrument: u32,
    pub symbol: Option<String>,
    pub depth: Option<u32>,
    pub bids: Vec<ViewLevel>,
    pub asks: Vec<ViewLevel>,
}

#[derive(Debug, Clone)]
pub struct ViewLevel {
    pub price: String,
    pub quantity: String,
}

#[derive(Debug, Clone)]
pub struct ViewDepthSample {
    pub event_ts_ns: i64,
    pub epoch: u64,
    pub bids: Vec<ViewLevel>,
    pub asks: Vec<ViewLevel>,
}

#[derive(Debug, Clone)]
pub struct ViewDepthHistory {
    pub schema_version: u16,
    pub venue: String,
    pub instrument: u32,
    pub symbol: Option<String>,
    pub sample_interval_ms: u64,
    pub capacity: usize,
    pub coalesced_samples: u64,
    pub evicted_samples: u64,
    pub samples: Vec<ViewDepthSample>,
}

#[derive(Debug, Clone)]
pub struct ViewDomRow {
    pub price: String,
    pub bid_quantity: String,
    pub ask_quantity: String,
    pub bid_cumulative_notional: String,
    pub ask_cumulative_notional: String,
    pub imbalance_bps: i32,
    pub mbp_delta_quantity: String,
    pub mbp_delta_notional: String,
    pub buy_executed_notional: String,
    pub sell_executed_notional: String,
    pub unknown_executed_notional: String,
    pub total_executed_notional: String,
    pub executed_delta_notional: String,
}

#[derive(Debug, Clone)]
pub struct ViewDomSnapshot {
    pub schema_version: u16,
    pub venue: String,
    pub instrument: u32,
    pub symbol: Option<String>,
    pub revision: u64,
    pub status: String,
    pub reason: Option<String>,
    pub execution_window_sec: u64,
    pub epoch: u64,
    pub rows: Vec<ViewDomRow>,
}

#[derive(Debug, Clone)]
pub struct ViewProfileSnapshot {
    pub schema_version: u16,
    pub venue: String,
    pub instrument: u32,
    pub symbol: Option<String>,
    pub revision: u64,
    pub status: String,
    pub reason: Option<String>,
    pub basis: Option<String>,
    pub value_area_bps: Option<u16>,
    pub start_ts_ns: Option<i64>,
    pub end_ts_ns: Option<i64>,
    pub high: Option<String>,
    pub low: Option<String>,
    pub range: Option<String>,
    pub total_volume: Option<String>,
    pub poc: Option<String>,
    pub vah: Option<String>,
    pub val: Option<String>,
    pub tpo_count: Option<u64>,
    pub rotation_factor: Option<i32>,
}

#[derive(Debug, Clone)]
pub struct ViewBubble {
    pub id: u64,
    pub phase: String,
    pub candle_start_ns: i64,
    pub candle_end_ns: i64,
    pub tier: String,
    pub mode: String,
    pub direction: String,
    pub anchor_price: String,
    pub low_price: String,
    pub high_price: String,
    pub total_volume: String,
    pub delta: String,
    pub strength: String,
    pub threshold: String,
    pub visual_size: u16,
    pub shape: String,
    pub merged_count: u16,
}

#[derive(Debug, Clone)]
pub struct ViewBubbleSnapshot {
    pub schema_version: u16,
    pub venue: String,
    pub instrument: u32,
    pub symbol: Option<String>,
    pub revision: u64,
    pub status: String,
    pub mode: String,
    pub reason: Option<String>,
    pub bubbles: Vec<ViewBubble>,
}

#[derive(Debug, Clone)]
pub struct ViewStructuralLevel {
    pub id: u64,
    pub kind: String,
    pub state: String,
    pub source_bubble_id: u64,
    pub direction: String,
    pub tier: String,
    pub price: String,
    pub strength: String,
    pub created_at_ns: i64,
    pub touched_at_ns: Option<i64>,
    pub window_start_ns: Option<i64>,
    pub expires_at_ns: Option<i64>,
}

#[derive(Debug, Clone)]
pub struct ViewStructuralLevelSnapshot {
    pub schema_version: u16,
    pub venue: String,
    pub instrument: u32,
    pub symbol: Option<String>,
    pub revision: u64,
    pub status: String,
    pub reason: Option<String>,
    pub levels: Vec<ViewStructuralLevel>,
}

#[derive(Debug, Clone)]
pub struct ViewFunding {
    pub rate: String,
    pub event_ts_ns: i64,
    pub next_funding_ts_ns: Option<i64>,
    pub age_ms: u64,
    pub stale: bool,
}

#[derive(Debug, Clone)]
pub struct ViewOpenInterest {
    pub quantity: String,
    pub event_ts_ns: i64,
    pub age_ms: u64,
    pub stale: bool,
    pub change: Option<String>,
    pub change_interval_ns: Option<i64>,
}

#[derive(Debug, Clone)]
pub struct ViewLiquidation {
    pub price: String,
    pub quantity: String,
    pub side: String,
    pub event_ts_ns: i64,
}

#[derive(Debug, Clone)]
pub struct ViewFundingDivergence {
    pub compatible_venues: usize,
    pub min_rate: String,
    pub max_rate: String,
    pub spread: String,
}

#[derive(Debug, Clone)]
pub struct ViewDerivativesSnapshot {
    pub schema_version: u16,
    pub venue: String,
    pub instrument: u32,
    pub symbol: Option<String>,
    pub revision: u64,
    pub status: String,
    pub funding: Option<ViewFunding>,
    pub open_interest: Option<ViewOpenInterest>,
    pub funding_divergence: Option<ViewFundingDivergence>,
    pub liquidations: Vec<ViewLiquidation>,
}

// ---------------------------------------------------------------------------
// Status fields.

/// Where the engine is in its life, as `/v1/status` reports it.
#[derive(Debug, Clone, Copy, PartialEq, Eq, Structural)]
pub enum Lifecycle {
    Starting,
    Running,
    Draining,
    Stopped,
}

pub open spec fn lifecycle_text(l: Lifecycle) -> Seq<char> {
    match l {
        Lifecycle::Starting => "starting"@,
        Lifecycle::Running => "running"@,
        Lifecycle::Draining => "draining"@,
        Lifecycle::Stopped => "stopped"@,
    }
}

pub fn lifecycle_label(l: Lifecycle) -> (s: &'static str)
    ensures
        s@ == lifecycle_text(l),
{
    match l {
        Lifecycle::Starting => "starting",
        Lifecycle::Running => "running",
        Lifecycle::Draining => "draining",
        Lifecycle::Stopped => "stopped",
    }
}

/// How far a venue's feed lags: whole milliseconds from its last event (when one with a
/// positive timestamp was seen) to `now_ns`, 0 when the event is in the future.
pub open spec fn feed_lag_spec(now_ns: i64, last_event_ts_ns: Option<i64>) -> Option<u64> {
    match last_event_ts_ns {
        Some(ts) => if ts > 0 {
            let d: int = now_ns - ts;
            let sat: int = if d < i64::MIN { i64::MIN as int } else if d > i64::MAX { i64::MAX as int } else { d };
            Some((if sat < 0 { 0 } else { sat / 1_000_000 }) as u64)
        } else {
            None
        },
        None => None,
    }
}

pub fn feed_lag_ms(now_ns: i64, last_event_ts_ns: Option<i64>) -> (r: Option<u64>)
    ensures
        r == feed_lag_spec(now_ns, last_event_ts_ns),
{
    match last_event_ts_ns {
        Some(ts) => {
            if ts > 0 {
                let wide: i128 = (now_ns as i128) - (ts as i128);
                let d: i64 = if wide > i64::MAX as i128 { i64::MAX } else if wide < 0 { 0 } else { wide as i64 };
                Some((d / 1_000_000) as u64)
            } else {
                None
            }
        },
        None => None,
    }
}

/// Whether an alert webhook is set to something other than blanks.
pub open spec fn webhook_configured(url: Option<Seq<char>>) -> bool {
    match url {
        Some(u) => trim(u).len() > 0,
        None => false,
    }
}

pub fn alert_webhook_configured(t: &TelemetryConfig) -> (b: bool)
    ensures
        b == webhook_configured(crate::config::opt_view(t.alert_webhook_url)),
{
    match &t.alert_webhook_url {
        Some(u) => !is_blank(u.as_str()),
        None => false,
    }
}

/// The instruments `/v1/instruments` lists for a venue: its symbols numbered from 1, or
/// BTC-USD as instrument 1 on a synthetic venue without symbols.
pub open spec fn venue_instruments_spec(v: VenueConfig) -> Seq<(u32, Seq<char>)> {
    if v.symbols@.len() == 0 && v.adapter@ == "synthetic"@ {
        seq![(1u32, "BTC-USD"@)]
    } else {
        Seq::new(v.symbols@.len(), |i: int| ((i + 1) as u32, v.symbols@[i]@))
    }
}

pub open spec fn numbered_view(s: Seq<(u32, String)>) -> Seq<(u32, Seq<char>)> {
    s.map_values(|p: (u32, String)| (p.0, p.1@))
}

pub fn venue_instruments(v: &VenueConfig) -> (r: Vec<(u32, String)>)
    requires
        v.symbols@.len() < u32::MAX,
    ensures
        numbered_view(r@) == venue_instruments_spec(*v),
{
    let mut out: Vec<(u32, String)> = Vec::new();
    if v.symbols.len() == 0 && str_eq(v.adapter.as_str(), "synthetic") {
        out.push((1, String::from_str("BTC-USD")));
        assert(numbered_view(out@) =~= venue_instruments_spec(*v));
        return out;
    }
    let mut i: usize = 0;
    while i < v.symbols.len()
        invariant
            i <= v.symbols@.len() < u32::MAX,
            numbered_view(out@) =~= venue_instruments_spec(*v).take(i as int),
            !(v.symbols@.len() == 0 && v.adapter@ == "synthetic"@),
        decreases v.symbols.len() - i,
    {
        let id: u32 = (i as u32) + 1;
        let sym = v.symbols[i].clone();
        let ghost before = out@;
        out.push((id, sym));
        assert(numbered_view(out@) =~= numbered_view(before).push((id, sym@)));
        i += 1;
        assert(numbered_view(out@) =~= venue_instruments_spec(*v).take(i as int));
    }
    assert(venue_instruments_spec(*v).take(i as int) =~= venue_instruments_spec(*v));
    out
}

} // verus!
