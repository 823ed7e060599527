//! The view plane's live projection, fed event by event: the venue names and symbols
//! it knows, each instrument's trade and quote tapes, its live book as the order book
//! reports it with each book event, the sampled depth history, the derivatives state
//! (funding, open interest, liquidations) and each venue's last-event clocks; and the
//! reads served from it. Applying book deltas is the order book's work, and the
//! analytics projections are kept elsewhere: neither is modelled here.

use vstd::prelude::*;
use std::collections::VecDeque;

use crate::assoc::{
    first_from, insert_absent, lemma_first_from, lemma_first_from_same_keys, lemma_lookup_insert_absent, lemma_lookup_upsert,
    lookup, upsert,
};
use crate::replay::{fixed_mul, fixed_mul_spec, fixed_text, format_fixed, Fixed};
use crate::config::opt_view;
use crate::tape::{
    entry_views, fresh_ring, kind_quotes, kind_trades, lemma_merge_views, lemma_newest_first_views, lemma_ring_within_capacity,
    merge_views,
    newest_first, saturating_inc, EntryView, InstrumentTape, RingModel, TapeEntry,
};
use crate::config::DaemonConfig;
use crate::text::{decimal, decimal_string, has_sub, str_contains, str_eq};
use crate::health::{lookup_live, venue_is_live};
use crate::metrics::VenueCounters;
use crate::dom::{dom_rows, dom_rows_spec, rows_shown, DomRowValues};
use crate::view::{ViewBookSnapshot, ViewDomRow, ViewDomSnapshot};
use crate::view::{
    alert_webhook_configured, feed_lag_ms, feed_lag_spec, lifecycle_label, lifecycle_text, webhook_configured, Lifecycle,
    ViewDepthHistory, ViewDepthSample, ViewDerivativesSnapshot, ViewFunding, ViewFundingDivergence, ViewLevel, ViewLiquidation,
    ViewOpenInterest, ViewPlaneConfig, ViewRecordingStatus, ViewStatus, ViewVenueStatus,
};
use crate::venue_config::VenueConfig;

verus! {

broadcast use vstd::string::group_string_axioms;

// ---------------------------------------------------------------------------
// Events.

/// Which side took liquidity in a trade, or was liquidated.
#[derive(Debug, Clone, Copy, PartialEq, Eq, Structural)]
pub enum Aggressor {
    Buy,
    Sell,
    Unknown,
}

pub open spec fn aggressor_text(a: Aggressor) -> Seq<char> {
    match a {
        Aggressor::Buy => "buy"@,
        Aggressor::Sell => "sell"@,
        Aggressor::Unknown => "unknown"@,
    }
}

pub fn aggressor_str(a: Aggressor) -> (s: &'static str)
    ensures
        s@ == aggressor_text(a),
{
    proof {
        reveal_strlit("buy");
        reveal_strlit("sell");
        reveal_strlit("unknown");
    }
    match a {
        Aggressor::Buy => "buy",
        Aggressor::Sell => "sell",
        Aggressor::Unknown => "unknown",
    }
}

/// What a normalized market event carries, as far as this projection reads it.
#[derive(Debug, Clone)]
pub enum PlanePayload {
    Trade { price: Fixed, quantity: Fixed, aggressor: Aggressor, trade_id: Option<String> },
    Quote { bid_price: Fixed, bid_quantity: Option<Fixed>, ask_price: Fixed, ask_quantity: Option<Fixed> },
    Funding { rate: Fixed, next_funding_ts: Option<i64> },
    OpenInterest { quantity: Fixed },
    Liquidation { price: Fixed, quantity: Fixed, side: Aggressor },
    /// A book snapshot or delta. `depth` is the book's levels once the event is applied,
    /// best first, as the order book reports them; none when there is no valid book.
    Book { depth: Option<DepthSnapshot> },
    /// Every other event.
    Other,
}

/// One price level of a book: price and quantity.
#[derive(Debug, Clone, Copy, PartialEq, Eq, Structural)]
pub struct DepthLevel {
    pub price: Fixed,
    pub quantity: Fixed,
}

/// The top levels of a book, best first on each side.
#[derive(Debug, Clone)]
pub struct DepthSnapshot {
    pub bids: Vec<DepthLevel>,
    pub asks: Vec<DepthLevel>,
}

/// One normalized market event: the venue's process-local id, the instrument when the
/// event has one, its exchange and receive timestamps (ns), and its payload.
#[derive(Debug, Clone)]
pub struct PlaneEvent {
    pub venue: u32,
    pub instrument: Option<u32>,
    pub exchange_ts: Option<i64>,
    pub receive_ts: i64,
    pub payload: PlanePayload,
}

// ---------------------------------------------------------------------------
// Derivatives state.

#[derive(Debug, Clone, Copy, PartialEq, Eq, Structural)]
pub struct TimedFunding {
    pub rate: Fixed,
    pub event_ts_ns: i64,
    pub next_funding_ts_ns: Option<i64>,
}

/// An open-interest reading and when it was seen.
#[derive(Debug, Clone, Copy, PartialEq, Eq, Structural)]
pub struct OpenInterestReading {
    pub quantity: Fixed,
    pub event_ts_ns: i64,
}

#[derive(Debug, Clone, Copy, PartialEq, Eq, Structural)]
pub struct TimedOpenInterest {
    pub quantity: Fixed,
    pub event_ts_ns: i64,
    /// The reading it replaced.
    pub previous: Option<OpenInterestReading>,
}

#[derive(Debug, Clone, Copy, PartialEq, Eq, Structural)]
pub struct TimedLiquidation {
    pub price: Fixed,
    pub quantity: Fixed,
    pub side: Aggressor,
    pub event_ts_ns: i64,
}

/// The most liquidations an instrument keeps.
pub const LIQUIDATIONS_KEPT: usize = 512;

#[derive(Debug)]
pub struct DerivativeProjection {
    pub funding: Option<TimedFunding>,
    pub open_interest: Option<TimedOpenInterest>,
    pub liquidations: VecDeque<TimedLiquidation>,
    pub revision: u64,
}

/// An instrument's derivatives state as plain values.
#[verifier::ext_equal]
pub struct DerivModel {
    pub funding: Option<TimedFunding>,
    pub open_interest: Option<TimedOpenInterest>,
    pub liquidations: Seq<TimedLiquidation>,
    pub revision: u64,
}

impl DerivativeProjection {
    pub open spec fn model(&self) -> DerivModel {
        DerivModel {
            funding: self.funding,
            open_interest: self.open_interest,
            liquidations: self.liquidations@,
            revision: self.revision,
        }
    }
}

pub open spec fn empty_deriv() -> DerivModel {
    DerivModel { funding: None, open_interest: None, liquidations: Seq::empty(), revision: 0 }
}

// ---------------------------------------------------------------------------
// Depth history.

/// How often an instrument's depth is sampled: at most once per 100 ms.
pub const DEPTH_SAMPLE_NS: i64 = 100_000_000;

/// How many depth samples an instrument keeps.
pub const DEPTH_HISTORY_CAPACITY: usize = 600;

/// How many levels of each side a depth sample keeps.
pub const DEPTH_SAMPLE_LEVELS: usize = 64;

/// One sampled book: when, in which book epoch, the scales of its first level, and the
/// coefficients of each level's price and quantity.
#[derive(Debug, Clone)]
pub struct StoredDepthSample {
    pub event_ts_ns: i64,
    pub epoch: u64,
    pub price_scale: u8,
    pub quantity_scale: u8,
    pub bids: Vec<(i128, i128)>,
    pub asks: Vec<(i128, i128)>,
}

/// A depth sample as plain values.
pub struct DepthModel {
    pub event_ts_ns: i64,
    pub epoch: u64,
    pub price_scale: u8,
    pub quantity_scale: u8,
    pub bids: Seq<(i128, i128)>,
    pub asks: Seq<(i128, i128)>,
}

pub open spec fn depth_model(d: StoredDepthSample) -> DepthModel {
    DepthModel {
        event_ts_ns: d.event_ts_ns,
        epoch: d.epoch,
        price_scale: d.price_scale,
        quantity_scale: d.quantity_scale,
        bids: d.bids@,
        asks: d.asks@,
    }
}

pub open spec fn history_model(h: Seq<StoredDepthSample>) -> Seq<DepthModel> {
    h.map_values(|d: StoredDepthSample| depth_model(d))
}

pub open spec fn histories_model(s: Seq<((u32, u32), VecDeque<StoredDepthSample>)>) -> Seq<((u32, u32), Seq<DepthModel>)> {
    s.map_values(|p: ((u32, u32), VecDeque<StoredDepthSample>)| (p.0, history_model(p.1@)))
}

// ---------------------------------------------------------------------------
// Tables and their models.

/// An instrument's two tapes as plain values.
#[verifier::ext_equal]
pub struct TapeModel {
    pub trades: RingModel,
    pub quotes: RingModel,
}

pub open spec fn tape_model(t: InstrumentTape) -> TapeModel {
    TapeModel { trades: t.trades.model(), quotes: t.quotes.model() }
}

pub open spec fn fresh_tape(cfg: ViewPlaneConfig, now: u64) -> TapeModel {
    TapeModel {
        trades: fresh_ring(cfg.tape_capacity, cfg.tape_max_per_sec, now),
        quotes: fresh_ring(cfg.tape_capacity, cfg.tape_max_per_sec, now),
    }
}

pub open spec fn names_model(s: Seq<(u32, String)>) -> Seq<(u32, Seq<char>)> {
    s.map_values(|p: (u32, String)| (p.0, p.1@))
}

pub open spec fn ids_model(s: Seq<(String, u32)>) -> Seq<(Seq<char>, u32)> {
    s.map_values(|p: (String, u32)| (p.0@, p.1))
}

pub open spec fn symbols_model(s: Seq<(String, u32, String)>) -> Seq<((Seq<char>, u32), Seq<char>)> {
    s.map_values(|p: (String, u32, String)| ((p.0@, p.1), p.2@))
}

pub open spec fn tapes_model(s: Seq<(u32, u32, InstrumentTape)>) -> Seq<((u32, u32), TapeModel)> {
    s.map_values(|p: (u32, u32, InstrumentTape)| ((p.0, p.1), tape_model(p.2)))
}

pub open spec fn book_model(b: Option<DepthSnapshot>) -> Option<(Seq<DepthLevel>, Seq<DepthLevel>)> {
    match b {
        Some(d) => Some((d.bids@, d.asks@)),
        None => None,
    }
}

pub open spec fn books_model(s: Seq<((u32, u32), Option<DepthSnapshot>)>) -> Seq<((u32, u32), Option<(Seq<DepthLevel>, Seq<DepthLevel>)>)> {
    s.map_values(|p: ((u32, u32), Option<DepthSnapshot>)| (p.0, book_model(p.1)))
}

pub open spec fn derivs_model(s: Seq<(u32, u32, DerivativeProjection)>) -> Seq<((u32, u32), DerivModel)> {
    s.map_values(|p: (u32, u32, DerivativeProjection)| ((p.0, p.1), p.2.model()))
}

/// The whole projection as plain values. Each table is an association list: the first
/// pair with a key is the one that counts.
#[verifier::ext_equal]
pub struct PlaneModel {
    /// Config venue id to process-local venue id.
    pub venue_ids: Seq<(Seq<char>, u32)>,
    /// Process-local venue id to config venue id.
    pub names: Seq<(u32, Seq<char>)>,
    /// (config venue id, instrument) to native symbol.
    pub symbols: Seq<((Seq<char>, u32), Seq<char>)>,
    pub tapes: Seq<((u32, u32), TapeModel)>,
    pub derivatives: Seq<((u32, u32), DerivModel)>,
    /// Receive timestamp of each venue's last event, trade and quote.
    pub last_event: Seq<(u32, i64)>,
    pub last_trade: Seq<(u32, i64)>,
    pub last_quote: Seq<(u32, i64)>,
    pub batches_seen: u64,
    pub tape_dropped: u64,
    /// Each instrument's depth samples, oldest first.
    pub depth_history: Seq<((u32, u32), Seq<DepthModel>)>,
    /// When each instrument was last sampled; `None` once its book was invalidated.
    pub depth_last: Seq<((u32, u32), Option<i64>)>,
    /// How many times each instrument's book was invalidated.
    pub depth_epochs: Seq<((u32, u32), u64)>,
    /// Book updates folded into an earlier sample, and samples evicted, per instrument.
    pub depth_coalesced: Seq<((u32, u32), u64)>,
    pub depth_evicted: Seq<((u32, u32), u64)>,
    /// Each instrument's live book, bids and asks best first; `None` once invalidated.
    pub books: Seq<((u32, u32), Option<(Seq<DepthLevel>, Seq<DepthLevel>)>)>,
}

/// The view plane's projection.
pub struct ViewPlane {
    cfg: ViewPlaneConfig,
    venue_ids: Vec<(String, u32)>,
    names: Vec<(u32, String)>,
    symbols: Vec<(String, u32, String)>,
    tapes: Vec<(u32, u32, InstrumentTape)>,
    derivatives: Vec<(u32, u32, DerivativeProjection)>,
    last_event: Vec<(u32, i64)>,
    last_trade: Vec<(u32, i64)>,
    last_quote: Vec<(u32, i64)>,
    batches_seen: u64,
    tape_dropped: u64,
    depth_history: Vec<((u32, u32), VecDeque<StoredDepthSample>)>,
    depth_last: Vec<((u32, u32), Option<i64>)>,
    depth_epochs: Vec<((u32, u32), u64)>,
    depth_coalesced: Vec<((u32, u32), u64)>,
    depth_evicted: Vec<((u32, u32), u64)>,
    books: Vec<((u32, u32), Option<DepthSnapshot>)>,
}

impl ViewPlane {
    pub closed spec fn config(&self) -> ViewPlaneConfig {
        self.cfg
    }

    pub closed spec fn model(&self) -> PlaneModel {
        PlaneModel {
            venue_ids: ids_model(self.venue_ids@),
            names: names_model(self.names@),
            symbols: symbols_model(self.symbols@),
            tapes: tapes_model(self.tapes@),
            derivatives: derivs_model(self.derivatives@),
            last_event: self.last_event@,
            last_trade: self.last_trade@,
            last_quote: self.last_quote@,
            batches_seen: self.batches_seen,
            tape_dropped: self.tape_dropped,
            depth_history: histories_model(self.depth_history@),
            depth_last: self.depth_last@,
            depth_epochs: self.depth_epochs@,
            depth_coalesced: self.depth_coalesced@,
            depth_evicted: self.depth_evicted@,
            books: books_model(self.books@),
        }
    }

    /// Every tape keeps its rings' bounds.
    pub closed spec fn wf(&self) -> bool {
        forall|i: int| 0 <= i < self.tapes@.len() ==> (#[trigger] self.tapes@[i]).2.wf()
    }
}


// ---------------------------------------------------------------------------
// What one event does.

/// `a + b` modulo 2^64, as a counter that wraps.
pub open spec fn wrap_add(a: u64, b: u64) -> u64 {
    if a + b > u64::MAX {
        (a + b - 0x1_0000_0000_0000_0000) as u64
    } else {
        (a + b) as u64
    }
}

/// The name a venue is shown under before it was registered.
pub open spec fn venue_label(id: u32) -> Seq<char> {
    "venue-"@ + decimal(id as nat)
}

pub open spec fn venue_name(m: PlaneModel, venue: u32) -> Seq<char> {
    match lookup(m.names, venue) {
        Some(n) => n,
        None => venue_label(venue),
    }
}

pub open spec fn opt_fixed_text(o: Option<Fixed>) -> Option<Seq<char>> {
    match o {
        Some(f) => Some(fixed_text(f)),
        None => None,
    }
}

/// When the exchange stamped the event, or when it was received if it was not stamped.
pub open spec fn event_ts(ev: PlaneEvent) -> i64 {
    match ev.exchange_ts {
        Some(t) => t,
        None => ev.receive_ts,
    }
}

/// An event with an instrument first registers its venue: the venue gets a name if it
/// had none, that name maps back to the venue if it mapped nowhere, and the venue's
/// last-event clock moves to the event.
pub open spec fn touch_venue(m: PlaneModel, ev: PlaneEvent) -> PlaneModel {
    let name = venue_name(m, ev.venue);
    PlaneModel {
        names: insert_absent(m.names, ev.venue, name),
        venue_ids: insert_absent(m.venue_ids, name, ev.venue),
        last_event: upsert(m.last_event, ev.venue, ev.receive_ts),
        ..m
    }
}

/// The tape row of a trade.
pub open spec fn trade_row(m: PlaneModel, ev: PlaneEvent, instrument: u32) -> EntryView
    recommends
        ev.payload is Trade,
{
    let name = venue_name(m, ev.venue);
    match ev.payload {
        PlanePayload::Trade { price, quantity, aggressor, trade_id } => EntryView::Trade {
            venue: name,
            instrument,
            symbol: lookup(m.symbols, (name, instrument)),
            price: fixed_text(price),
            quantity: fixed_text(quantity),
            notional: match fixed_mul_spec(price, quantity) {
                Some(n) => Some(fixed_text(n)),
                None => None,
            },
            aggressor: aggressor_text(aggressor),
            trade_id: opt_view(trade_id),
            exchange_ts_ns: ev.exchange_ts,
            receive_ts_ns: ev.receive_ts,
        },
        _ => arbitrary(),
    }
}

/// The tape row of a quote.
pub open spec fn quote_row(m: PlaneModel, ev: PlaneEvent, instrument: u32) -> EntryView
    recommends
        ev.payload is Quote,
{
    let name = venue_name(m, ev.venue);
    match ev.payload {
        PlanePayload::Quote { bid_price, bid_quantity, ask_price, ask_quantity } => EntryView::Quote {
            venue: name,
            instrument,
            symbol: lookup(m.symbols, (name, instrument)),
            bid_price: fixed_text(bid_price),
            bid_quantity: opt_fixed_text(bid_quantity),
            ask_price: fixed_text(ask_price),
            ask_quantity: opt_fixed_text(ask_quantity),
            exchange_ts_ns: ev.exchange_ts,
            receive_ts_ns: ev.receive_ts,
        },
        _ => arbitrary(),
    }
}

/// The tapes of an instrument, new ones when it has none yet.
pub open spec fn tape_at(m: PlaneModel, cfg: ViewPlaneConfig, key: (u32, u32), now: u64) -> TapeModel {
    match lookup(m.tapes, key) {
        Some(t) => t,
        None => fresh_tape(cfg, now),
    }
}

/// A row pushed onto the trade (`trade`) or quote tape of `key`; what it drops is added
/// to the plane's drop counter.
pub open spec fn push_row(m: PlaneModel, cfg: ViewPlaneConfig, key: (u32, u32), trade: bool, row: EntryView, now: u64) -> PlaneModel {
    let t = tape_at(m, cfg, key, now);
    let ring = if trade { t.trades } else { t.quotes };
    let pushed = ring.pushed(row, now);
    PlaneModel {
        tapes: upsert(
            m.tapes,
            key,
            if trade { TapeModel { trades: pushed, quotes: t.quotes } } else { TapeModel { trades: t.trades, quotes: pushed } },
        ),
        tape_dropped: wrap_add(m.tape_dropped, (pushed.dropped - ring.dropped) as u64),
        ..m
    }
}

pub open spec fn deriv_at(m: PlaneModel, key: (u32, u32)) -> DerivModel {
    match lookup(m.derivatives, key) {
        Some(d) => d,
        None => empty_deriv(),
    }
}

/// The newest liquidations that leave room for one more under the cap.
pub open spec fn room_for_one(s: Seq<TimedLiquidation>) -> Seq<TimedLiquidation> {
    if s.len() >= LIQUIDATIONS_KEPT {
        s.skip(s.len() - (LIQUIDATIONS_KEPT - 1))
    } else {
        s
    }
}

/// The derivatives state after a funding, open-interest or liquidation event; each one
/// moves the revision on.
pub open spec fn deriv_after(d: DerivModel, ev: PlaneEvent) -> DerivModel {
    let ts = event_ts(ev);
    match ev.payload {
        PlanePayload::Funding { rate, next_funding_ts } => DerivModel {
            funding: Some(TimedFunding { rate, event_ts_ns: ts, next_funding_ts_ns: next_funding_ts }),
            revision: saturating_inc(d.revision),
            ..d
        },
        PlanePayload::OpenInterest { quantity } => DerivModel {
            open_interest: Some(
                TimedOpenInterest {
                    quantity,
                    event_ts_ns: ts,
                    previous: match d.open_interest {
                        Some(o) => Some(OpenInterestReading { quantity: o.quantity, event_ts_ns: o.event_ts_ns }),
                        None => None,
                    },
                },
            ),
            revision: saturating_inc(d.revision),
            ..d
        },
        PlanePayload::Liquidation { price, quantity, side } => DerivModel {
            liquidations: room_for_one(d.liquidations).push(
                TimedLiquidation { price, quantity, side, event_ts_ns: ts },
            ),
            revision: saturating_inc(d.revision),
            ..d
        },
        _ => d,
    }
}

pub open spec fn is_derivative(p: PlanePayload) -> bool {
    p is Funding || p is OpenInterest || p is Liquidation
}

pub open spec fn counter_at(s: Seq<((u32, u32), u64)>, key: (u32, u32)) -> u64 {
    match lookup(s, key) {
        Some(n) => n,
        None => 0,
    }
}

pub open spec fn history_at(m: PlaneModel, key: (u32, u32)) -> Seq<DepthModel> {
    match lookup(m.depth_history, key) {
        Some(h) => h,
        None => Seq::empty(),
    }
}

pub open spec fn last_sample_at(m: PlaneModel, key: (u32, u32)) -> Option<i64> {
    match lookup(m.depth_last, key) {
        Some(Some(t)) => Some(t),
        _ => None,
    }
}

/// The scale of the first bid's price, else the first ask's, else 0; likewise for
/// quantities.
pub open spec fn first_scales(bids: Seq<DepthLevel>, asks: Seq<DepthLevel>) -> (u8, u8) {
    if bids.len() > 0 {
        (bids[0].price.scale, bids[0].quantity.scale)
    } else if asks.len() > 0 {
        (asks[0].price.scale, asks[0].quantity.scale)
    } else {
        (0, 0)
    }
}

/// The first `n` levels of a side (all of them when it has fewer).
pub open spec fn top_levels(s: Seq<DepthLevel>, n: nat) -> Seq<DepthLevel> {
    if s.len() <= n {
        s
    } else {
        s.take(n as int)
    }
}

pub open spec fn level_coefficients(s: Seq<DepthLevel>) -> Seq<(i128, i128)> {
    s.map_values(|l: DepthLevel| (l.price.coefficient, l.quantity.coefficient))
}

/// The depth history after the book of `key` showed `bids`/`asks` at `ts`: within 100
/// ms of the last sample the update is only counted as coalesced; otherwise it becomes
/// a sample in the current epoch, evicting the oldest when 600 are held.
pub open spec fn depth_sampled(m: PlaneModel, key: (u32, u32), ts: i64, bids: Seq<DepthLevel>, asks: Seq<DepthLevel>) -> PlaneModel {
    if coalesces(m, key, ts) {
        PlaneModel {
            depth_coalesced: upsert(m.depth_coalesced, key, saturating_inc(counter_at(m.depth_coalesced, key))),
            ..m
        }
    } else {
        {
            let h = history_at(m, key);
            let full = h.len() >= DEPTH_HISTORY_CAPACITY;
            let (ps, qs) = first_scales(bids, asks);
            let sample = DepthModel {
                event_ts_ns: ts,
                epoch: counter_at(m.depth_epochs, key),
                price_scale: ps,
                quantity_scale: qs,
                bids: level_coefficients(bids),
                asks: level_coefficients(asks),
            };
            PlaneModel {
                depth_last: upsert(m.depth_last, key, Some(ts)),
                depth_evicted: if full {
                    upsert(m.depth_evicted, key, saturating_inc(counter_at(m.depth_evicted, key)))
                } else {
                    m.depth_evicted
                },
                depth_history: upsert(m.depth_history, key, (if full { h.drop_first() } else { h }).push(sample)),
                ..m
            }
        }
    }
}

/// Whether a book update at `ts` comes within 100 ms of the instrument's last sample.
pub open spec fn coalesces(m: PlaneModel, key: (u32, u32), ts: i64) -> bool {
    match last_sample_at(m, key) {
        Some(last) => sat_sub_i64(ts, last) < DEPTH_SAMPLE_NS,
        None => false,
    }
}

/// A book invalidation reported for the venue a sink feeds: the instrument's book is
/// dropped, starts a new epoch and its next update is sampled at once. Without a venue it
/// is ignored.
pub open spec fn invalidated(m: PlaneModel, venue: Option<u32>, instrument: u32) -> PlaneModel {
    match venue {
        None => m,
        Some(v) => PlaneModel {
            depth_epochs: upsert(m.depth_epochs, (v, instrument), saturating_inc(counter_at(m.depth_epochs, (v, instrument)))),
            depth_last: upsert(m.depth_last, (v, instrument), None),
            books: upsert(m.books, (v, instrument), None),
            ..m
        },
    }
}

/// What one event does to the projection. Events without an instrument are ignored.
pub open spec fn event_step(m: PlaneModel, cfg: ViewPlaneConfig, ev: PlaneEvent, now: u64) -> PlaneModel {
    match ev.instrument {
        None => m,
        Some(inst) => {
            let m1 = touch_venue(m, ev);
            let key = (ev.venue, inst);
            if ev.payload is Trade {
                push_row(
                    PlaneModel { last_trade: upsert(m1.last_trade, ev.venue, ev.receive_ts), ..m1 },
                    cfg,
                    key,
                    true,
                    trade_row(m, ev, inst),
                    now,
                )
            } else if ev.payload is Quote {
                push_row(
                    PlaneModel { last_quote: upsert(m1.last_quote, ev.venue, ev.receive_ts), ..m1 },
                    cfg,
                    key,
                    false,
                    quote_row(m, ev, inst),
                    now,
                )
            } else if is_derivative(ev.payload) {
                PlaneModel { derivatives: upsert(m1.derivatives, key, deriv_after(deriv_at(m1, key), ev)), ..m1 }
            } else {
                match ev.payload {
                    PlanePayload::Book { depth: Some(d) } => {
                        let sampled = depth_sampled(
                            m1,
                            key,
                            ev.receive_ts,
                            top_levels(d.bids@, DEPTH_SAMPLE_LEVELS as nat),
                            top_levels(d.asks@, DEPTH_SAMPLE_LEVELS as nat),
                        );
                        PlaneModel { books: upsert(sampled.books, key, Some((d.bids@, d.asks@))), ..sampled }
                    },
                    _ => m1,
                }
            }
        },
    }
}

/// The first `n` events applied in order.
pub open spec fn events_step(m: PlaneModel, cfg: ViewPlaneConfig, evs: Seq<PlaneEvent>, now: u64, n: nat) -> PlaneModel
    decreases n,
{
    if n == 0 {
        m
    } else {
        event_step(events_step(m, cfg, evs, now, (n - 1) as nat), cfg, evs[n - 1], now)
    }
}

/// A batch: counted, then its events applied in order.
pub open spec fn batch_step(m: PlaneModel, cfg: ViewPlaneConfig, evs: Seq<PlaneEvent>, now: u64) -> PlaneModel {
    events_step(PlaneModel { batches_seen: wrap_add(m.batches_seen, 1), ..m }, cfg, evs, now, evs.len())
}

/// The venue of a batch whose events all come from one venue.
pub open spec fn batch_venue(evs: Seq<PlaneEvent>) -> Option<u32> {
    if evs.len() > 0 && forall|i: int| 0 <= i < evs.len() ==> #[trigger] evs[i].venue == evs[0].venue {
        Some(evs[0].venue)
    } else {
        None
    }
}

// ---------------------------------------------------------------------------
// Finding keys.

fn find_ts(s: &Vec<(u32, i64)>, k: u32) -> (r: Option<usize>)
    ensures
        match r {
            Some(i) => i < s@.len() && first_from(s@, k, 0) == Some(i as int),
            None => first_from(s@, k, 0) is None,
        },
{
    let mut i: usize = 0;
    while i < s.len()
        invariant
            i <= s@.len(),
            first_from(s@, k, 0) == first_from(s@, k, i as int),
        decreases s.len() - i,
    {
        if s[i].0 == k {
            return Some(i);
        }
        i += 1;
    }
    None
}

fn find_name(s: &Vec<(u32, String)>, k: u32) -> (r: Option<usize>)
    ensures
        match r {
            Some(i) => i < s@.len() && first_from(names_model(s@), k, 0) == Some(i as int),
            None => first_from(names_model(s@), k, 0) is None,
        },
{
    let ghost m = names_model(s@);
    let mut i: usize = 0;
    while i < s.len()
        invariant
            i <= s@.len(),
            m == names_model(s@),
            first_from(m, k, 0) == first_from(m, k, i as int),
        decreases s.len() - i,
    {
        if s[i].0 == k {
            return Some(i);
        }
        i += 1;
    }
    None
}

fn find_venue_id(s: &Vec<(String, u32)>, k: &str) -> (r: Option<usize>)
    ensures
        match r {
            Some(i) => i < s@.len() && first_from(ids_model(s@), k@, 0) == Some(i as int),
            None => first_from(ids_model(s@), k@, 0) is None,
        },
{
    let ghost m = ids_model(s@);
    let mut i: usize = 0;
    while i < s.len()
        invariant
            i <= s@.len(),
            m == ids_model(s@),
            first_from(m, k@, 0) == first_from(m, k@, i as int),
        decreases s.len() - i,
    {
        if str_eq(s[i].0.as_str(), k) {
            return Some(i);
        }
        i += 1;
    }
    None
}

fn find_symbol(s: &Vec<(String, u32, String)>, venue: &str, instrument: u32) -> (r: Option<usize>)
    ensures
        match r {
            Some(i) => i < s@.len() && first_from(symbols_model(s@), (venue@, instrument), 0) == Some(i as int),
            None => first_from(symbols_model(s@), (venue@, instrument), 0) is None,
        },
{
    let ghost m = symbols_model(s@);
    let mut i: usize = 0;
    while i < s.len()
        invariant
            i <= s@.len(),
            m == symbols_model(s@),
            first_from(m, (venue@, instrument), 0) == first_from(m, (venue@, instrument), i as int),
        decreases s.len() - i,
    {
        if s[i].1 == instrument && str_eq(s[i].0.as_str(), venue) {
            return Some(i);
        }
        i += 1;
    }
    None
}

fn find_tape(s: &Vec<(u32, u32, InstrumentTape)>, venue: u32, instrument: u32) -> (r: Option<usize>)
    ensures
        match r {
            Some(i) => i < s@.len() && first_from(tapes_model(s@), (venue, instrument), 0) == Some(i as int),
            None => first_from(tapes_model(s@), (venue, instrument), 0) is None,
        },
{
    let ghost m = tapes_model(s@);
    let mut i: usize = 0;
    while i < s.len()
        invariant
            i <= s@.len(),
            m == tapes_model(s@),
            first_from(m, (venue, instrument), 0) == first_from(m, (venue, instrument), i as int),
        decreases s.len() - i,
    {
        if s[i].0 == venue && s[i].1 == instrument {
            return Some(i);
        }
        i += 1;
    }
    None
}

fn find_deriv(s: &Vec<(u32, u32, DerivativeProjection)>, venue: u32, instrument: u32) -> (r: Option<usize>)
    ensures
        match r {
            Some(i) => i < s@.len() && first_from(derivs_model(s@), (venue, instrument), 0) == Some(i as int),
            None => first_from(derivs_model(s@), (venue, instrument), 0) is None,
        },
{
    let ghost m = derivs_model(s@);
    let mut i: usize = 0;
    while i < s.len()
        invariant
            i <= s@.len(),
            m == derivs_model(s@),
            first_from(m, (venue, instrument), 0) == first_from(m, (venue, instrument), i as int),
        decreases s.len() - i,
    {
        if s[i].0 == venue && s[i].1 == instrument {
            return Some(i);
        }
        i += 1;
    }
    None
}

} // verus!

verus! {

// ---------------------------------------------------------------------------
// Writing keys.

fn upsert_ts(s: &mut Vec<(u32, i64)>, k: u32, v: i64)
    ensures
        final(s)@ == upsert(old(s)@, k, v),
{
    match find_ts(s, k) {
        Some(i) => s.set(i, (k, v)),
        None => s.push((k, v)),
    }
}

fn clone_fixed_opt(o: &Option<Fixed>) -> (r: Option<String>)
    ensures
        opt_view(r) == opt_fixed_text(*o),
{
    match o {
        Some(f) => Some(format_fixed(*f)),
        None => None,
    }
}

fn clone_str_opt(o: &Option<String>) -> (r: Option<String>)
    ensures
        opt_view(r) == opt_view(*o),
{
    match o {
        Some(s) => Some(s.clone()),
        None => None,
    }
}

fn venue_label_string(id: u32) -> (s: String)
    ensures
        s@ == venue_label(id),
{
    let mut s = String::from_str("venue-");
    let d = decimal_string(id as u128);
    s.append(d.as_str());
    proof {
        reveal_strlit("venue-");
    }
    s
}

fn wrapping_add_u64(a: u64, b: u64) -> (r: u64)
    ensures
        r == wrap_add(a, b),
{
    if a > u64::MAX - b {
        b - (u64::MAX - a) - 1
    } else {
        a + b
    }
}

fn find_key2<V>(s: &Vec<((u32, u32), V)>, k: (u32, u32)) -> (r: Option<usize>)
    ensures
        match r {
            Some(i) => i < s@.len() && first_from(s@, k, 0) == Some(i as int),
            None => first_from(s@, k, 0) is None,
        },
{
    let mut i: usize = 0;
    while i < s.len()
        invariant
            i <= s@.len(),
            first_from(s@, k, 0) == first_from(s@, k, i as int),
        decreases s.len() - i,
    {
        if s[i].0.0 == k.0 && s[i].0.1 == k.1 {
            return Some(i);
        }
        i += 1;
    }
    None
}

fn set_key2<V>(s: &mut Vec<((u32, u32), V)>, k: (u32, u32), v: V)
    ensures
        final(s)@ == upsert(old(s)@, k, v),
{
    match find_key2(s, k) {
        Some(i) => s.set(i, (k, v)),
        None => s.push((k, v)),
    }
}

fn counter_of(s: &Vec<((u32, u32), u64)>, k: (u32, u32)) -> (n: u64)
    ensures
        n == counter_at(s@, k),
{
    match find_key2(s, k) {
        Some(i) => s[i].1,
        None => 0,
    }
}

/// The first `n` levels of a side.
fn copy_levels(levels: &Vec<DepthLevel>, n: usize) -> (r: Vec<DepthLevel>)
    ensures
        r@ == top_levels(levels@, n as nat),
        n == usize::MAX ==> r@ == levels@,
{
    let k = if levels.len() <= n { levels.len() } else { n };
    let mut out: Vec<DepthLevel> = Vec::new();
    let mut i: usize = 0;
    while i < k
        invariant
            k <= levels@.len(),
            i <= k,
            out@ == levels@.take(i as int),
        decreases k - i,
    {
        out.push(levels[i]);
        i += 1;
        assert(out@ =~= levels@.take(i as int));
    }
    assert(levels@.take(levels@.len() as int) =~= levels@);
    out
}

proof fn lemma_books_model_upsert(s: Seq<((u32, u32), Option<DepthSnapshot>)>, k: (u32, u32), b: Option<DepthSnapshot>)
    ensures
        books_model(upsert(s, k, b)) == upsert(books_model(s), k, book_model(b)),
{
    lemma_first_from_same_keys(s, books_model(s), k, 0);
    lemma_first_from(s, k, 0);
    match first_from(s, k, 0) {
        Some(i) => {
            assert(books_model(s.update(i, (k, b))) =~= books_model(s).update(i, (k, book_model(b))));
        },
        None => {
            assert(books_model(s.push((k, b))) =~= books_model(s).push((k, book_model(b))));
        },
    }
}

fn coefficients(levels: &Vec<DepthLevel>) -> (r: Vec<(i128, i128)>)
    ensures
        r@ == level_coefficients(levels@),
{
    let mut out: Vec<(i128, i128)> = Vec::new();
    let mut i: usize = 0;
    while i < levels.len()
        invariant
            i <= levels@.len(),
            out@ == level_coefficients(levels@).take(i as int),
        decreases levels.len() - i,
    {
        out.push((levels[i].price.coefficient, levels[i].quantity.coefficient));
        i += 1;
        assert(out@ =~= level_coefficients(levels@).take(i as int));
    }
    assert(level_coefficients(levels@).take(levels@.len() as int) =~= level_coefficients(levels@));
    out
}

impl ViewPlane {
    /// Registers the venue of an event that has an instrument; returns the venue's name.
    fn touch_venue_exec(&mut self, ev: &PlaneEvent) -> (name: String)
        ensures
            final(self).model() == touch_venue(old(self).model(), *ev),
            final(self).cfg == old(self).cfg,
            final(self).tapes == old(self).tapes,
            name@ == venue_name(old(self).model(), ev.venue),
    {
        let ghost m = self.model();
        let name = match find_name(&self.names, ev.venue) {
            Some(i) => self.names[i].1.clone(),
            None => venue_label_string(ev.venue),
        };
        if find_name(&self.names, ev.venue).is_none() {
            self.names.push((ev.venue, name.clone()));
        }
        if find_venue_id(&self.venue_ids, name.as_str()).is_none() {
            self.venue_ids.push((name.clone(), ev.venue));
        }
        upsert_ts(&mut self.last_event, ev.venue, ev.receive_ts);
        assert(names_model(self.names@) =~= insert_absent(m.names, ev.venue, name@));
        assert(ids_model(self.venue_ids@) =~= insert_absent(m.venue_ids, name@, ev.venue));
        assert(self.model() =~= touch_venue(m, *ev));
        name
    }
}


fn saturating_inc_u64(d: u64) -> (r: u64)
    ensures
        r == saturating_inc(d),
{
    if d == u64::MAX {
        d
    } else {
        d + 1
    }
}

/// Applies a funding, open-interest or liquidation event to an instrument's state.
fn apply_derivative(p: &mut DerivativeProjection, ev: &PlaneEvent)
    ensures
        final(p).model() == deriv_after(old(p).model(), *ev),
{
    let ghost d0 = p.model();
    let ts = match ev.exchange_ts {
        Some(t) => t,
        None => ev.receive_ts,
    };
    match &ev.payload {
        PlanePayload::Funding { rate, next_funding_ts } => {
            p.funding = Some(TimedFunding { rate: *rate, event_ts_ns: ts, next_funding_ts_ns: *next_funding_ts });
            p.revision = saturating_inc_u64(p.revision);
        },
        PlanePayload::OpenInterest { quantity } => {
            let previous = match &p.open_interest {
                Some(o) => Some(OpenInterestReading { quantity: o.quantity, event_ts_ns: o.event_ts_ns }),
                None => None,
            };
            p.open_interest = Some(TimedOpenInterest { quantity: *quantity, event_ts_ns: ts, previous });
            p.revision = saturating_inc_u64(p.revision);
        },
        PlanePayload::Liquidation { price, quantity, side } => {
            let ghost before = p.liquidations@;
            let n0 = p.liquidations.len();
            let mut popped: usize = 0;
            while p.liquidations.len() >= LIQUIDATIONS_KEPT
                invariant
                    n0 == before.len(),
                    popped <= before.len(),
                    p.funding == d0.funding,
                    p.open_interest == d0.open_interest,
                    p.revision == d0.revision,
                    p.liquidations@ == before.skip(popped as int),
                    before.len() >= LIQUIDATIONS_KEPT ==> before.len() - popped >= LIQUIDATIONS_KEPT - 1,
                    before.len() < LIQUIDATIONS_KEPT ==> popped == 0,
                decreases p.liquidations@.len(),
            {
                let _ = p.liquidations.pop_front();
                popped += 1;
                assert(p.liquidations@ =~= before.skip(popped as int));
            }
            assert(p.liquidations@ =~= room_for_one(before));
            p.liquidations.push_back(TimedLiquidation { price: *price, quantity: *quantity, side: *side, event_ts_ns: ts });
            p.revision = saturating_inc_u64(p.revision);
        },
        _ => {},
    }
    assert(p.model() =~= deriv_after(d0, *ev));
}

impl ViewPlane {
    /// Pushes a row onto the trade (`trade`) or quote tape of (venue, instrument),
    /// creating the tapes when the instrument has none, and counts what it drops.
    fn push_row_exec(&mut self, venue: u32, instrument: u32, trade: bool, row: TapeEntry, now: u64)
        requires
            old(self).wf(),
        ensures
            final(self).wf(),
            final(self).cfg == old(self).cfg,
            final(self).model() == push_row(old(self).model(), old(self).cfg, (venue, instrument), trade, row@, now),
    {
        let ghost m = self.model();
        let ghost r = row@;
        let ghost old_tapes = self.tapes@;
        let ghost t0 = tape_at(m, self.cfg, (venue, instrument), now);
        let ghost ring0 = if trade { t0.trades } else { t0.quotes };
        let ghost want = if trade {
            TapeModel { trades: ring0.pushed(r, now), quotes: t0.quotes }
        } else {
            TapeModel { trades: t0.trades, quotes: ring0.pushed(r, now) }
        };
        let d: u64;
        proof {
            lemma_first_from(tapes_model(old_tapes), (venue, instrument), 0);
        }
        match find_tape(&self.tapes, venue, instrument) {
            Some(i) => {
                assert(old_tapes[i as int].2.wf());
                let (a, b, mut t) = self.tapes.remove(i);
                assert(tape_model(t) == tapes_model(old_tapes)[i as int].1);
                d = if trade { t.push_trade(row, now) } else { t.push_quote(row, now) };
                let ghost tm = tape_model(t);
                assert(tm =~= want);
                self.tapes.insert(i, (a, b, t));
                assert(self.tapes@ =~= old_tapes.update(i as int, (venue, instrument, t)));
                assert(tapes_model(self.tapes@) =~= tapes_model(old_tapes).update(i as int, ((venue, instrument), tm)));
            },
            None => {
                let mut t = InstrumentTape::new(self.cfg.tape_capacity, self.cfg.tape_max_per_sec, now);
                d = if trade { t.push_trade(row, now) } else { t.push_quote(row, now) };
                let ghost tm = tape_model(t);
                assert(tm =~= want);
                self.tapes.push((venue, instrument, t));
                assert(tapes_model(self.tapes@) =~= tapes_model(old_tapes).push(((venue, instrument), tm)));
            },
        }
        self.tape_dropped = wrapping_add_u64(self.tape_dropped, d);
        assert forall|j: int| 0 <= j < self.tapes@.len() implies (#[trigger] self.tapes@[j]).2.wf() by {}
        assert(self.model() =~= push_row(m, self.cfg, (venue, instrument), trade, r, now));
    }
}

impl ViewPlane {
    /// The symbol registered for (config venue id, instrument).
    fn symbol_of(&self, venue: &str, instrument: u32) -> (r: Option<String>)
        ensures
            opt_view(r) == lookup(self.model().symbols, (venue@, instrument)),
    {
        match find_symbol(&self.symbols, venue, instrument) {
            Some(i) => Some(self.symbols[i].2.clone()),
            None => None,
        }
    }

    /// Applies a derivatives event to the state of (venue, instrument), creating it when
    /// the instrument has none.
    fn update_derivative(&mut self, venue: u32, instrument: u32, ev: &PlaneEvent)
        requires
            old(self).wf(),
        ensures
            final(self).wf(),
            final(self).cfg == old(self).cfg,
            final(self).model() == (PlaneModel {
                derivatives: upsert(
                    old(self).model().derivatives,
                    (venue, instrument),
                    deriv_after(deriv_at(old(self).model(), (venue, instrument)), *ev),
                ),
                ..old(self).model()
            }),
    {
        let ghost m = self.model();
        let ghost old_d = self.derivatives@;
        proof {
            lemma_first_from(derivs_model(old_d), (venue, instrument), 0);
        }
        match find_deriv(&self.derivatives, venue, instrument) {
            Some(i) => {
                let (a, b, mut d) = self.derivatives.remove(i);
                apply_derivative(&mut d, ev);
                let ghost dm = d.model();
                self.derivatives.insert(i, (a, b, d));
                assert(self.derivatives@ =~= old_d.update(i as int, (venue, instrument, d)));
                assert(derivs_model(self.derivatives@) =~= derivs_model(old_d).update(i as int, ((venue, instrument), dm)));
            },
            None => {
                let mut d = DerivativeProjection {
                    funding: None,
                    open_interest: None,
                    liquidations: VecDeque::new(),
                    revision: 0,
                };
                assert(d.model() =~= empty_deriv());
                apply_derivative(&mut d, ev);
                let ghost dm = d.model();
                self.derivatives.push((venue, instrument, d));
                assert(derivs_model(self.derivatives@) =~= derivs_model(old_d).push(((venue, instrument), dm)));
            },
        }
        assert(self.model() =~= (PlaneModel {
            derivatives: upsert(m.derivatives, (venue, instrument), deriv_after(deriv_at(m, (venue, instrument)), *ev)),
            ..m
        }));
    }

    /// Records the book of `key` as it stands at `ts`: see `depth_sampled`.
    fn push_depth_sample(&mut self, key: (u32, u32), ts: i64, bids: &Vec<DepthLevel>, asks: &Vec<DepthLevel>)
        ensures
            final(self).model() == depth_sampled(old(self).model(), key, ts, bids@, asks@),
            final(self).cfg == old(self).cfg,
            final(self).tapes == old(self).tapes,
    {
        let ghost m = self.model();
        let last = match find_key2(&self.depth_last, key) {
            Some(i) => self.depth_last[i].1,
            None => None,
        };
        assert(last == last_sample_at(m, key));
        if let Some(l) = last {
            if sat_sub_i64_exec(ts, l) < DEPTH_SAMPLE_NS {
                let c = counter_of(&self.depth_coalesced, key);
                set_key2(&mut self.depth_coalesced, key, saturating_inc_u64(c));
                assert(self.model() =~= depth_sampled(m, key, ts, bids@, asks@));
                return;
            }
        }
        set_key2(&mut self.depth_last, key, Some(ts));
        let epoch = counter_of(&self.depth_epochs, key);
        let (price_scale, quantity_scale) = if bids.len() > 0 {
            (bids[0].price.scale, bids[0].quantity.scale)
        } else if asks.len() > 0 {
            (asks[0].price.scale, asks[0].quantity.scale)
        } else {
            (0, 0)
        };
        let sample = StoredDepthSample {
            event_ts_ns: ts,
            epoch,
            price_scale,
            quantity_scale,
            bids: coefficients(bids),
            asks: coefficients(asks),
        };
        let ghost sm = depth_model(sample);
        let ghost old_h = self.depth_history@;
        proof {
            lemma_first_from_same_keys(old_h, histories_model(old_h), key, 0);
            lemma_first_from(histories_model(old_h), key, 0);
        }
        match find_key2(&self.depth_history, key) {
            Some(i) => {
                let (k, mut h) = self.depth_history.remove(i);
                let ghost h0 = h@;
                assert(history_model(h0) == history_at(m, key));
                if h.len() >= DEPTH_HISTORY_CAPACITY {
                    let c = counter_of(&self.depth_evicted, key);
                    set_key2(&mut self.depth_evicted, key, saturating_inc_u64(c));
                    let _ = h.pop_front();
                    assert(history_model(h@) =~= history_model(h0).drop_first());
                }
                let ghost h1 = h@;
                h.push_back(sample);
                assert(history_model(h@) =~= history_model(h1).push(sm));
                let ghost hm = history_model(h@);
                self.depth_history.insert(i, (k, h));
                assert(histories_model(self.depth_history@) =~= histories_model(old_h).update(i as int, (key, hm)));
            },
            None => {
                let mut h: VecDeque<StoredDepthSample> = VecDeque::new();
                h.push_back(sample);
                assert(history_model(h@) =~= Seq::<DepthModel>::empty().push(sm));
                let ghost hm = history_model(h@);
                self.depth_history.push((key, h));
                assert(histories_model(self.depth_history@) =~= histories_model(old_h).push((key, hm)));
            },
        }
        assert(self.model() =~= depth_sampled(m, key, ts, bids@, asks@));
    }

    /// A book invalidation reported for the venue a sink feeds: see `invalidated`.
    pub fn invalidate_book(&mut self, venue: Option<u32>, instrument: u32)
        requires
            old(self).wf(),
        ensures
            final(self).wf(),
            final(self).config() == old(self).config(),
            final(self).model() == invalidated(old(self).model(), venue, instrument),
    {
        let ghost m = self.model();
        if let Some(v) = venue {
            let c = counter_of(&self.depth_epochs, (v, instrument));
            set_key2(&mut self.depth_epochs, (v, instrument), saturating_inc_u64(c));
            set_key2(&mut self.depth_last, (v, instrument), None);
            let ghost before = self.books@;
            set_key2(&mut self.books, (v, instrument), None);
            proof {
                lemma_books_model_upsert(before, (v, instrument), None);
            }
        }
        assert(self.model() =~= invalidated(m, venue, instrument));
    }

    /// Applies one event: see `event_step`.
    pub fn ingest_event(&mut self, ev: &PlaneEvent, now_ns: u64)
        requires
            old(self).wf(),
        ensures
            final(self).wf(),
            final(self).config() == old(self).config(),
            final(self).model() == event_step(old(self).model(), old(self).config(), *ev, now_ns),
    {
        let inst = match ev.instrument {
            None => return,
            Some(i) => i,
        };
        let ghost m = self.model();
        let name = self.touch_venue_exec(ev);
        let ghost m1 = self.model();
        match &ev.payload {
            PlanePayload::Trade { price, quantity, aggressor, trade_id } => {
                upsert_ts(&mut self.last_trade, ev.venue, ev.receive_ts);
                let symbol = self.symbol_of(name.as_str(), inst);
                let notional = match fixed_mul(*price, *quantity) {
                    Some(n) => Some(format_fixed(n)),
                    None => None,
                };
                let row = TapeEntry::Trade {
                    venue: name,
                    instrument: inst,
                    symbol,
                    price: format_fixed(*price),
                    quantity: format_fixed(*quantity),
                    notional,
                    aggressor: String::from_str(aggressor_str(*aggressor)),
                    trade_id: clone_str_opt(trade_id),
                    exchange_ts_ns: ev.exchange_ts,
                    receive_ts_ns: ev.receive_ts,
                };
                assert(row@ == trade_row(m, *ev, inst));
                assert(self.model() =~= (PlaneModel { last_trade: upsert(m1.last_trade, ev.venue, ev.receive_ts), ..m1 }));
                self.push_row_exec(ev.venue, inst, true, row, now_ns);
            },
            PlanePayload::Quote { bid_price, bid_quantity, ask_price, ask_quantity } => {
                upsert_ts(&mut self.last_quote, ev.venue, ev.receive_ts);
                let symbol = self.symbol_of(name.as_str(), inst);
                let row = TapeEntry::Quote {
                    venue: name,
                    instrument: inst,
                    symbol,
                    bid_price: format_fixed(*bid_price),
                    bid_quantity: clone_fixed_opt(bid_quantity),
                    ask_price: format_fixed(*ask_price),
                    ask_quantity: clone_fixed_opt(ask_quantity),
                    exchange_ts_ns: ev.exchange_ts,
                    receive_ts_ns: ev.receive_ts,
                };
                assert(row@ == quote_row(m, *ev, inst));
                assert(self.model() =~= (PlaneModel { last_quote: upsert(m1.last_quote, ev.venue, ev.receive_ts), ..m1 }));
                self.push_row_exec(ev.venue, inst, false, row, now_ns);
            },
            PlanePayload::Funding { .. } | PlanePayload::OpenInterest { .. } | PlanePayload::Liquidation { .. } => {
                self.update_derivative(ev.venue, inst, ev);
            },
            PlanePayload::Book { depth } => {
                match depth {
                    Some(d) => {
                        let bids = copy_levels(&d.bids, DEPTH_SAMPLE_LEVELS);
                        let asks = copy_levels(&d.asks, DEPTH_SAMPLE_LEVELS);
                        self.push_depth_sample((ev.venue, inst), ev.receive_ts, &bids, &asks);
                        let book = DepthSnapshot { bids: copy_levels(&d.bids, usize::MAX), asks: copy_levels(&d.asks, usize::MAX) };
                        assert(book.bids@ == d.bids@ && book.asks@ == d.asks@);
                        let ghost before = self.books@;
                        set_key2(&mut self.books, (ev.venue, inst), Some(book));
                        proof {
                            lemma_books_model_upsert(before, (ev.venue, inst), Some(book));
                        }
                    },
                    None => {},
                }
            },
            PlanePayload::Other => {},
        }
    }

    /// Applies a batch: counts it, then applies its events in order. Returns the venue
    /// of the batch when all its events come from one venue.
    pub fn ingest_batch(&mut self, events: &Vec<PlaneEvent>, now_ns: u64) -> (venue: Option<u32>)
        requires
            old(self).wf(),
        ensures
            final(self).wf(),
            final(self).config() == old(self).config(),
            final(self).model() == batch_step(old(self).model(), old(self).config(), events@, now_ns),
            venue == batch_venue(events@),
    {
        let ghost m = self.model();
        let mut venue: Option<u32> = None;
        if events.len() > 0 {
            let v0 = events[0].venue;
            let mut same = true;
            let mut j: usize = 0;
            while j < events.len()
                invariant
                    j <= events@.len(),
                    events@.len() > 0,
                    v0 == events@[0].venue,
                    same == forall|k: int| 0 <= k < j ==> #[trigger] events@[k].venue == v0,
                decreases events.len() - j,
            {
                if events[j].venue != v0 {
                    same = false;
                }
                j += 1;
            }
            if same {
                venue = Some(v0);
            }
        }
        self.batches_seen = wrapping_add_u64(self.batches_seen, 1);
        let ghost start = self.model();
        assert(start =~= (PlaneModel { batches_seen: wrap_add(m.batches_seen, 1), ..m }));
        let mut i: usize = 0;
        while i < events.len()
            invariant
                i <= events@.len(),
                self.wf(),
                self.cfg == old(self).cfg,
                self.model() == events_step(start, self.cfg, events@, now_ns, i as nat),
            decreases events.len() - i,
        {
            self.ingest_event(&events[i], now_ns);
            i += 1;
        }
        venue
    }
}

// ---------------------------------------------------------------------------
// Building and registering.

pub open spec fn empty_plane() -> PlaneModel {
    PlaneModel {
        venue_ids: Seq::empty(),
        names: Seq::empty(),
        symbols: Seq::empty(),
        tapes: Seq::empty(),
        derivatives: Seq::empty(),
        last_event: Seq::empty(),
        last_trade: Seq::empty(),
        last_quote: Seq::empty(),
        batches_seen: 0,
        tape_dropped: 0,
        depth_history: Seq::empty(),
        depth_last: Seq::empty(),
        depth_epochs: Seq::empty(),
        depth_coalesced: Seq::empty(),
        depth_evicted: Seq::empty(),
        books: Seq::empty(),
    }
}

/// The symbol table with `syms[..n]` registered for `venue` as instruments 1, 2, ...
pub open spec fn with_symbols(
    s: Seq<((Seq<char>, u32), Seq<char>)>,
    venue: Seq<char>,
    syms: Seq<Seq<char>>,
    n: nat,
) -> Seq<((Seq<char>, u32), Seq<char>)>
    decreases n,
{
    if n == 0 {
        s
    } else {
        upsert(with_symbols(s, venue, syms, (n - 1) as nat), (venue, n as u32), syms[n - 1])
    }
}

/// The symbol table with each (instrument, symbol) of a catalog registered for `venue`.
pub open spec fn with_catalog(
    s: Seq<((Seq<char>, u32), Seq<char>)>,
    venue: Seq<char>,
    catalog: Seq<(u32, Seq<char>)>,
    n: nat,
) -> Seq<((Seq<char>, u32), Seq<char>)>
    decreases n,
{
    if n == 0 {
        s
    } else {
        upsert(with_catalog(s, venue, catalog, (n - 1) as nat), (venue, catalog[n - 1].0), catalog[n - 1].1)
    }
}

pub open spec fn string_views(s: Seq<String>) -> Seq<Seq<char>> {
    s.map_values(|x: String| x@)
}

/// A running session's venue registered: its config id and process-local id map to each
/// other, and its configured symbols become instruments 1, 2, ...; a synthetic venue
/// without symbols trades BTC-USD as instrument 1.
pub open spec fn register_venue_spec(m: PlaneModel, venue: u32, config_id: Seq<char>, syms: Seq<Seq<char>>) -> PlaneModel {
    let s1 = with_symbols(m.symbols, config_id, syms, syms.len());
    PlaneModel {
        venue_ids: upsert(m.venue_ids, config_id, venue),
        names: upsert(m.names, venue, config_id),
        symbols: if syms.len() == 0 && has_sub(config_id, "synthetic"@) {
            upsert(s1, (config_id, 1u32), "BTC-USD"@)
        } else {
            s1
        },
        ..m
    }
}

/// The symbol tables of the configured venues, `venues[..n]`, each symbol numbered from 1.
pub open spec fn config_symbols(
    s: Seq<((Seq<char>, u32), Seq<char>)>,
    venues: Seq<crate::venue_config::VenueConfig>,
    n: nat,
) -> Seq<((Seq<char>, u32), Seq<char>)>
    decreases n,
{
    if n == 0 {
        s
    } else {
        let v = venues[n - 1];
        with_symbols(config_symbols(s, venues, (n - 1) as nat), v.id@, string_views(v.symbols@), v.symbols@.len())
    }
}

/// The first instrument of a venue registered under a symbol, looking at `s[i..]`.
pub open spec fn instrument_of(s: Seq<((Seq<char>, u32), Seq<char>)>, venue: Seq<char>, symbol: Seq<char>, i: int) -> Option<u32>
    decreases s.len() - i,
{
    if i < 0 || i >= s.len() {
        None
    } else if s[i].0.0 == venue && s[i].1 == symbol {
        Some(s[i].0.1)
    } else {
        instrument_of(s, venue, symbol, i + 1)
    }
}

/// The rows a tape read returns: the newest `limit` (at least one) of the trades, of the
/// quotes, or of both merged newest first.
pub open spec fn tape_rows(t: TapeModel, limit: usize, kind: Option<Seq<char>>) -> Seq<EntryView> {
    let l: nat = if limit < 1 { 1 } else { limit as nat };
    let tr = newest_first(t.trades.entries, if l < t.trades.entries.len() { l } else { t.trades.entries.len() });
    let q = newest_first(t.quotes.entries, if l < t.quotes.entries.len() { l } else { t.quotes.entries.len() });
    if kind_trades(kind) {
        tr
    } else if kind_quotes(kind) {
        q
    } else {
        merge_views(tr, q, l)
    }
}

/// The tape rows of (config venue id, instrument): none when the venue or its tapes are
/// unknown.
pub open spec fn tape_read(m: PlaneModel, venue: Seq<char>, instrument: u32, limit: usize, kind: Option<Seq<char>>) -> Seq<EntryView> {
    match lookup(m.venue_ids, venue) {
        None => Seq::empty(),
        Some(v) => match lookup(m.tapes, (v, instrument)) {
            None => Seq::empty(),
            Some(t) => tape_rows(t, limit, kind),
        },
    }
}

impl ViewPlane {
    /// An empty projection with the given tape tunables.
    pub fn new(cfg: ViewPlaneConfig) -> (p: Self)
        ensures
            p.wf(),
            p.config() == cfg,
            p.model() == empty_plane(),
    {
        let p = ViewPlane {
            cfg,
            venue_ids: Vec::new(),
            names: Vec::new(),
            symbols: Vec::new(),
            tapes: Vec::new(),
            derivatives: Vec::new(),
            last_event: Vec::new(),
            last_trade: Vec::new(),
            last_quote: Vec::new(),
            batches_seen: 0,
            tape_dropped: 0,
            depth_history: Vec::new(),
            depth_last: Vec::new(),
            depth_epochs: Vec::new(),
            depth_coalesced: Vec::new(),
            depth_evicted: Vec::new(),
            books: Vec::new(),
        };
        assert(p.model() =~= empty_plane());
        p
    }

    fn add_symbols(&mut self, venue: &str, syms: &Vec<String>)
        requires
            syms@.len() < u32::MAX,
        ensures
            final(self).model() == (PlaneModel {
                symbols: with_symbols(old(self).model().symbols, venue@, string_views(syms@), syms@.len()),
                ..old(self).model()
            }),
            final(self).cfg == old(self).cfg,
            final(self).tapes == old(self).tapes,
    {
        let ghost m = self.model();
        let mut i: usize = 0;
        while i < syms.len()
            invariant
                i <= syms@.len() < u32::MAX,
                self.cfg == old(self).cfg,
                self.tapes == old(self).tapes,
                self.model() == (PlaneModel {
                    symbols: with_symbols(m.symbols, venue@, string_views(syms@), i as nat),
                    ..m
                }),
            decreases syms.len() - i,
        {
            let id: u32 = (i as u32) + 1;
            self.set_symbol(venue, id, &syms[i]);
            i += 1;
            assert(self.model() =~= (PlaneModel {
                symbols: with_symbols(m.symbols, venue@, string_views(syms@), i as nat),
                ..m
            }));
        }
    }

    fn set_symbol(&mut self, venue: &str, instrument: u32, symbol: &String)
        ensures
            final(self).model() == (PlaneModel {
                symbols: upsert(old(self).model().symbols, (venue@, instrument), symbol@),
                ..old(self).model()
            }),
            final(self).cfg == old(self).cfg,
            final(self).tapes == old(self).tapes,
    {
        let ghost m = self.model();
        let ghost before = self.symbols@;
        let entry = (String::from_str(venue), instrument, symbol.clone());
        match find_symbol(&self.symbols, venue, instrument) {
            Some(i) => {
                self.symbols.set(i, entry);
                assert(symbols_model(self.symbols@) =~= symbols_model(before).update(i as int, ((venue@, instrument), symbol@)));
            },
            None => {
                self.symbols.push(entry);
                assert(symbols_model(self.symbols@) =~= symbols_model(before).push(((venue@, instrument), symbol@)));
            },
        }
        assert(self.model() =~= (PlaneModel { symbols: upsert(m.symbols, (venue@, instrument), symbol@), ..m }));
    }

    fn set_venue(&mut self, venue: u32, config_id: &str)
        ensures
            final(self).model() == (PlaneModel {
                venue_ids: upsert(old(self).model().venue_ids, config_id@, venue),
                names: upsert(old(self).model().names, venue, config_id@),
                ..old(self).model()
            }),
            final(self).cfg == old(self).cfg,
            final(self).tapes == old(self).tapes,
    {
        let ghost m = self.model();
        let ghost ids = self.venue_ids@;
        let ghost names = self.names@;
        match find_venue_id(&self.venue_ids, config_id) {
            Some(i) => {
                self.venue_ids.set(i, (String::from_str(config_id), venue));
                assert(ids_model(self.venue_ids@) =~= ids_model(ids).update(i as int, (config_id@, venue)));
            },
            None => {
                self.venue_ids.push((String::from_str(config_id), venue));
                assert(ids_model(self.venue_ids@) =~= ids_model(ids).push((config_id@, venue)));
            },
        }
        match find_name(&self.names, venue) {
            Some(i) => {
                self.names.set(i, (venue, String::from_str(config_id)));
                assert(names_model(self.names@) =~= names_model(names).update(i as int, (venue, config_id@)));
            },
            None => {
                self.names.push((venue, String::from_str(config_id)));
                assert(names_model(self.names@) =~= names_model(names).push((venue, config_id@)));
            },
        }
        assert(self.model() =~= (PlaneModel {
            venue_ids: upsert(m.venue_ids, config_id@, venue),
            names: upsert(m.names, venue, config_id@),
            ..m
        }));
    }

    /// Registers the process-local venue id a running session uses.
    pub fn register_venue(&mut self, venue: u32, config_id: &str, symbols: &Vec<String>)
        requires
            old(self).wf(),
            symbols@.len() < u32::MAX,
        ensures
            final(self).wf(),
            final(self).config() == old(self).config(),
            final(self).model() == register_venue_spec(old(self).model(), venue, config_id@, string_views(symbols@)),
    {
        let ghost m = self.model();
        self.set_venue(venue, config_id);
        self.add_symbols(config_id, symbols);
        if symbols.len() == 0 && str_contains(config_id, "synthetic") {
            let btc = String::from_str("BTC-USD");
            self.set_symbol(config_id, 1, &btc);
        }
        proof {
            reveal_strlit("synthetic");
            reveal_strlit("BTC-USD");
        }
        assert(self.model() =~= register_venue_spec(m, venue, config_id@, string_views(symbols@)));
    }

    /// Registers a venue's catalog before its events arrive: the ids map to each other
    /// and each catalog instrument's native symbol is recorded.
    pub fn register_catalog(&mut self, config_id: &str, venue: u32, catalog: &Vec<(u32, String)>)
        requires
            old(self).wf(),
        ensures
            final(self).wf(),
            final(self).config() == old(self).config(),
            final(self).model() == (PlaneModel {
                venue_ids: upsert(old(self).model().venue_ids, config_id@, venue),
                names: upsert(old(self).model().names, venue, config_id@),
                symbols: with_catalog(old(self).model().symbols, config_id@, crate::view::numbered_view(catalog@), catalog@.len()),
                ..old(self).model()
            }),
    {
        self.set_venue(venue, config_id);
        let ghost m = self.model();
        let mut i: usize = 0;
        while i < catalog.len()
            invariant
                i <= catalog@.len(),
                self.cfg == old(self).cfg,
                self.tapes == old(self).tapes,
                self.model() == (PlaneModel {
                    symbols: with_catalog(m.symbols, config_id@, crate::view::numbered_view(catalog@), i as nat),
                    ..m
                }),
            decreases catalog.len() - i,
        {
            self.set_symbol(config_id, catalog[i].0, &catalog[i].1);
            i += 1;
            assert(self.model() =~= (PlaneModel {
                symbols: with_catalog(m.symbols, config_id@, crate::view::numbered_view(catalog@), i as nat),
                ..m
            }));
        }
    }

    /// The projection a configuration starts with: its tape tunables, and each venue's
    /// configured symbols numbered from 1.
    pub fn from_daemon_config(config: &DaemonConfig) -> (p: Self)
        requires
            forall|i: int| 0 <= i < config.venues@.len() ==> (#[trigger] config.venues@[i]).symbols@.len() < u32::MAX,
        ensures
            p.wf(),
            p.config() == (ViewPlaneConfig {
                tape_capacity: if config.telemetry.ui_tape_capacity == 0 { 1 } else { config.telemetry.ui_tape_capacity as usize },
                tape_max_per_sec: config.telemetry.ui_tape_max_per_sec,
            }),
            p.model() == (PlaneModel {
                symbols: config_symbols(Seq::empty(), config.venues@, config.venues@.len()),
                ..empty_plane()
            }),
    {
        let mut p = ViewPlane::new(ViewPlaneConfig::from_telemetry(&config.telemetry));
        let mut v: usize = 0;
        while v < config.venues.len()
            invariant
                v <= config.venues@.len(),
                p.wf(),
                forall|i: int| 0 <= i < config.venues@.len() ==> (#[trigger] config.venues@[i]).symbols@.len() < u32::MAX,
                p.cfg == (ViewPlaneConfig {
                    tape_capacity: if config.telemetry.ui_tape_capacity == 0 { 1 } else { config.telemetry.ui_tape_capacity as usize },
                    tape_max_per_sec: config.telemetry.ui_tape_max_per_sec,
                }),
                p.model() == (PlaneModel {
                    symbols: config_symbols(Seq::empty(), config.venues@, v as nat),
                    ..empty_plane()
                }),
            decreases config.venues.len() - v,
        {
            let venue = &config.venues[v];
            assert(config.venues@[v as int].symbols@.len() < u32::MAX);
            p.add_symbols(venue.id.as_str(), &venue.symbols);
            v += 1;
        }
        p
    }

    // -----------------------------------------------------------------------
    // Reads.

    /// The process-local id of a config venue, once registered.
    pub fn venue_id(&self, config_id: &str) -> (r: Option<u32>)
        ensures
            r == lookup(self.model().venue_ids, config_id@),
    {
        match find_venue_id(&self.venue_ids, config_id) {
            Some(i) => Some(self.venue_ids[i].1),
            None => None,
        }
    }

    /// The instrument a venue trades under a native symbol.
    pub fn resolve_instrument(&self, config_id: &str, symbol: &str) -> (r: Option<u32>)
        ensures
            r == instrument_of(self.model().symbols, config_id@, symbol@, 0),
    {
        let ghost s = self.model().symbols;
        let mut i: usize = 0;
        while i < self.symbols.len()
            invariant
                i <= self.symbols@.len(),
                s == symbols_model(self.symbols@),
                instrument_of(s, config_id@, symbol@, 0) == instrument_of(s, config_id@, symbol@, i as int),
            decreases self.symbols.len() - i,
        {
            let e = &self.symbols[i];
            if str_eq(e.0.as_str(), config_id) && str_eq(e.2.as_str(), symbol) {
                return Some(e.1);
            }
            i += 1;
        }
        None
    }

    /// The tape rows of (config venue id, instrument): the newest `limit`, newest first;
    /// `kind` picks trades or quotes, or merges both.
    pub fn tape_filtered(&self, config_id: &str, instrument: u32, limit: usize, kind: Option<&str>) -> (r: Vec<TapeEntry>)
        requires
            self.wf(),
        ensures
            entry_views(r@) == tape_read(self.model(), config_id@, instrument, limit, crate::route::opt_str_view(kind)),
    {
        let venue = match self.venue_id(config_id) {
            Some(v) => v,
            None => {
                let r: Vec<TapeEntry> = Vec::new();
                assert(entry_views(r@) =~= Seq::<EntryView>::empty());
                return r;
            },
        };
        proof {
            lemma_first_from(tapes_model(self.tapes@), (venue, instrument), 0);
        }
        match find_tape(&self.tapes, venue, instrument) {
            Some(i) => {
                let t = &self.tapes[i].2;
                assert(t.wf());
                let r = t.snapshot(limit, kind);
                proof {
                    let l: nat = if limit < 1 { 1 } else { limit as nat };
                    let te = t.trades.entries();
                    let qe = t.quotes.entries();
                    let nt: nat = if l < te.len() { l } else { te.len() };
                    let nq: nat = if l < qe.len() { l } else { qe.len() };
                    lemma_newest_first_views(te, nt);
                    lemma_newest_first_views(qe, nq);
                    lemma_merge_views(newest_first(te, nt), newest_first(qe, nq), l);
                }
                r
            },
            None => {
                let r: Vec<TapeEntry> = Vec::new();
                assert(entry_views(r@) =~= Seq::<EntryView>::empty());
                r
            },
        }
    }

    /// Both tapes merged: `tape_filtered` with no kind.
    pub fn tape(&self, config_id: &str, instrument: u32, limit: usize) -> (r: Vec<TapeEntry>)
        requires
            self.wf(),
        ensures
            entry_views(r@) == tape_read(self.model(), config_id@, instrument, limit, None),
    {
        self.tape_filtered(config_id, instrument, limit, None)
    }

    /// Batches seen and tape rows dropped, both counted since start (wrapping).
    pub fn stats(&self) -> (r: (u64, u64))
        ensures
            r == (self.model().batches_seen, self.model().tape_dropped),
    {
        (self.batches_seen, self.tape_dropped)
    }

    /// The receive timestamps of a venue's last event, trade and quote.
    pub fn last_seen(&self, venue: u32) -> (r: (Option<i64>, Option<i64>, Option<i64>))
        ensures
            r == (
                lookup(self.model().last_event, venue),
                lookup(self.model().last_trade, venue),
                lookup(self.model().last_quote, venue),
            ),
    {
        let e = match find_ts(&self.last_event, venue) {
            Some(i) => Some(self.last_event[i].1),
            None => None,
        };
        let t = match find_ts(&self.last_trade, venue) {
            Some(i) => Some(self.last_trade[i].1),
            None => None,
        };
        let q = match find_ts(&self.last_quote, venue) {
            Some(i) => Some(self.last_quote[i].1),
            None => None,
        };
        (e, t, q)
    }
}

// ---------------------------------------------------------------------------
// Fixed-point arithmetic at a common scale.

pub open spec fn pow10(n: nat) -> int
    decreases n,
{
    if n == 0 {
        1
    } else {
        10 * pow10((n - 1) as nat)
    }
}

proof fn lemma_pow10_split(a: nat, b: nat)
    ensures
        pow10(a + b) == pow10(a) * pow10(b),
        pow10(a) >= 1,
    decreases b,
{
    if b == 0 {
        assert(pow10(a) >= 1) by {
            lemma_pow10_pos(a);
        }
    } else {
        lemma_pow10_split(a, (b - 1) as nat);
        assert(pow10(a + b) == 10 * pow10((a + b - 1) as nat));
        assert(pow10(a) * pow10(b) == pow10(a) * (10 * pow10((b - 1) as nat)));
        assert(pow10(a) * (10 * pow10((b - 1) as nat)) == 10 * (pow10(a) * pow10((b - 1) as nat))) by (nonlinear_arith);
    }
}

proof fn lemma_pow10_pos(n: nat)
    ensures
        pow10(n) >= 1,
    decreases n,
{
    if n > 0 {
        lemma_pow10_pos((n - 1) as nat);
    }
}

/// The same value at a finer `scale`: the coefficient times 10 per extra digit; none
/// when `scale` is coarser or the coefficient leaves the `i128` range.
pub open spec fn rescaled(f: Fixed, scale: u8) -> Option<Fixed> {
    if scale < f.scale {
        None
    } else {
        let c = f.coefficient * pow10((scale - f.scale) as nat);
        if i128::MIN <= c <= i128::MAX {
            Some(Fixed { coefficient: c as i128, scale })
        } else {
            None
        }
    }
}

pub fn rescale_up(f: Fixed, scale: u8) -> (r: Option<Fixed>)
    ensures
        r == rescaled(f, scale),
{
    if scale < f.scale {
        return None;
    }
    let d: u8 = scale - f.scale;
    let mut c: i128 = f.coefficient;
    let mut k: u8 = 0;
    while k < d
        invariant
            k <= d,
            d == scale - f.scale,
            c == f.coefficient * pow10(k as nat),
        decreases d - k,
    {
        assert(pow10((k + 1) as nat) == 10 * pow10(k as nat));
        assert(f.coefficient * pow10((k + 1) as nat) == c * 10) by (nonlinear_arith)
            requires
                c == f.coefficient * pow10(k as nat),
                pow10((k + 1) as nat) == 10 * pow10(k as nat),
        ;
        match c.checked_mul(10) {
            Some(x) => c = x,
            None => {
                proof {
                    let big = f.coefficient * pow10((k + 1) as nat);
                    let rest = pow10((d - k - 1) as nat);
                    lemma_pow10_split((k + 1) as nat, (d - k - 1) as nat);
                    assert(((k + 1) + (d - k - 1)) as nat == d as nat);
                    assert(f.coefficient * pow10(d as nat) == big * rest) by (nonlinear_arith)
                        requires
                            pow10(d as nat) == pow10((k + 1) as nat) * rest,
                            big == f.coefficient * pow10((k + 1) as nat),
                    ;
                    lemma_pow10_pos((d - k - 1) as nat);
                    assert(big > i128::MAX ==> big * rest > i128::MAX) by (nonlinear_arith)
                        requires
                            rest >= 1,
                    ;
                    assert(big < i128::MIN ==> big * rest < i128::MIN) by (nonlinear_arith)
                        requires
                            rest >= 1,
                    ;
                }
                return None;
            },
        }
        k += 1;
    }
    Some(Fixed { coefficient: c, scale })
}

pub open spec fn max_u8(a: u8, b: u8) -> u8 {
    if a >= b {
        a
    } else {
        b
    }
}

/// `a - b` at the finer of their scales; none when a coefficient leaves the `i128` range.
pub open spec fn fixed_difference_spec(a: Fixed, b: Fixed) -> Option<Fixed> {
    let s = max_u8(a.scale, b.scale);
    match (rescaled(a, s), rescaled(b, s)) {
        (Some(x), Some(y)) => {
            let c = x.coefficient - y.coefficient;
            if i128::MIN <= c <= i128::MAX {
                Some(Fixed { coefficient: c as i128, scale: s })
            } else {
                None
            }
        },
        _ => None,
    }
}

pub fn fixed_difference(a: Fixed, b: Fixed) -> (r: Option<Fixed>)
    ensures
        r == fixed_difference_spec(a, b),
{
    let s = if a.scale >= b.scale { a.scale } else { b.scale };
    let x = match rescale_up(a, s) {
        Some(x) => x,
        None => return None,
    };
    let y = match rescale_up(b, s) {
        Some(y) => y,
        None => return None,
    };
    match x.coefficient.checked_sub(y.coefficient) {
        Some(c) => Some(Fixed { coefficient: c, scale: s }),
        None => None,
    }
}

/// `a + b` at the finer of their scales; none when a coefficient leaves the `i128` range.
pub open spec fn fixed_sum_spec(a: Fixed, b: Fixed) -> Option<Fixed> {
    let s = max_u8(a.scale, b.scale);
    match (rescaled(a, s), rescaled(b, s)) {
        (Some(x), Some(y)) => {
            let c = x.coefficient + y.coefficient;
            if i128::MIN <= c <= i128::MAX {
                Some(Fixed { coefficient: c as i128, scale: s })
            } else {
                None
            }
        },
        _ => None,
    }
}

pub fn fixed_add(a: Fixed, b: Fixed) -> (r: Option<Fixed>)
    ensures
        r == fixed_sum_spec(a, b),
{
    let s = if a.scale >= b.scale { a.scale } else { b.scale };
    let x = match rescale_up(a, s) {
        Some(x) => x,
        None => return None,
    };
    let y = match rescale_up(b, s) {
        Some(y) => y,
        None => return None,
    };
    match x.coefficient.checked_add(y.coefficient) {
        Some(c) => Some(Fixed { coefficient: c, scale: s }),
        None => None,
    }
}

/// Integer division rounding toward zero, as Rust's `/` does.
pub open spec fn div_toward_zero(a: int, b: int) -> int
    recommends
        b > 0,
{
    if a >= 0 {
        a / b
    } else {
        -((-a) / b)
    }
}

/// Fixed-point addition is exact: the sum is at the finer of the two scales, its
/// coefficient the two coefficients brought to that scale and added; it is none only
/// when a value leaves the `i128` range there. The order of the two does not matter.
pub proof fn lemma_fixed_sum_is_exact(a: Fixed, b: Fixed)
    ensures
        ({
            let s = if a.scale >= b.scale { a.scale } else { b.scale };
            let x = a.coefficient * pow10((s - a.scale) as nat);
            let y = b.coefficient * pow10((s - b.scale) as nat);
            &&& fixed_sum_spec(a, b) is Some <==> (i128::MIN <= x <= i128::MAX && i128::MIN <= y <= i128::MAX
                && i128::MIN <= x + y <= i128::MAX)
            &&& fixed_sum_spec(a, b) matches Some(r) ==> r.scale == s && r.coefficient == x + y
        }),
        fixed_sum_spec(a, b) == fixed_sum_spec(b, a),
{
}

/// Fixed-point subtraction is exact: the difference is at the finer of the two scales,
/// its coefficient the two coefficients brought to that scale and subtracted; it is none
/// only when a value leaves the `i128` range there.
pub proof fn lemma_fixed_difference_is_exact(a: Fixed, b: Fixed)
    ensures
        ({
            let s = if a.scale >= b.scale { a.scale } else { b.scale };
            let x = a.coefficient * pow10((s - a.scale) as nat);
            let y = b.coefficient * pow10((s - b.scale) as nat);
            &&& fixed_difference_spec(a, b) is Some <==> (i128::MIN <= x <= i128::MAX && i128::MIN <= y <= i128::MAX
                && i128::MIN <= x - y <= i128::MAX)
            &&& fixed_difference_spec(a, b) matches Some(r) ==> r.scale == s && r.coefficient == x - y
        }),
{
}

/// How much more quantity rests on the bid than on the ask, in basis points of both
/// together (rounded toward zero, clamped to `i32`); 0 when there is none; none when a
/// value leaves the `i128` range.
pub open spec fn imbalance_spec(bid: Fixed, ask: Fixed) -> Option<i32> {
    let s = max_u8(bid.scale, ask.scale);
    match (rescaled(bid, s), rescaled(ask, s)) {
        (Some(b), Some(a)) => {
            let total = b.coefficient + a.coefficient;
            let diff = b.coefficient - a.coefficient;
            if total < i128::MIN || total > i128::MAX {
                None
            } else if total <= 0 {
                Some(0)
            } else if diff < i128::MIN || diff > i128::MAX || diff * 10_000 < i128::MIN || diff * 10_000 > i128::MAX {
                None
            } else {
                let v = div_toward_zero(diff * 10_000, total);
                Some((if v < i32::MIN { i32::MIN as int } else if v > i32::MAX { i32::MAX as int } else { v }) as i32)
            }
        },
        _ => None,
    }
}

proof fn lemma_ratio_bps(d: int, t: int)
    requires
        t > 0,
        -t <= d <= t,
    ensures
        -10_000 <= div_toward_zero(d * 10_000, t) <= 10_000,
        d >= 0 ==> div_toward_zero(d * 10_000, t) >= 0,
        d <= 0 ==> div_toward_zero(d * 10_000, t) <= 0,
        d == t ==> div_toward_zero(d * 10_000, t) == 10_000,
        d == -t ==> div_toward_zero(d * 10_000, t) == -10_000,
{
    if d >= 0 {
        assert((d * 10_000) / t <= 10_000) by (nonlinear_arith)
            requires
                t > 0,
                0 <= d <= t,
        {
            assert(d * 10_000 <= t * 10_000);
            vstd::arithmetic::div_mod::lemma_div_is_ordered(d * 10_000, t * 10_000, t);
            vstd::arithmetic::div_mod::lemma_div_by_multiple(10_000, t);
        }
        assert((d * 10_000) / t >= 0) by (nonlinear_arith)
            requires
                t > 0,
                0 <= d,
        ;
        if d == t {
            vstd::arithmetic::div_mod::lemma_div_by_multiple(10_000, t);
            assert(d * 10_000 == 10_000 * t) by (nonlinear_arith)
                requires
                    d == t,
            ;
        }
    } else {
        let e = -d;
        assert((e * 10_000) / t <= 10_000) by (nonlinear_arith)
            requires
                t > 0,
                0 <= e <= t,
        {
            assert(e * 10_000 <= t * 10_000);
            vstd::arithmetic::div_mod::lemma_div_is_ordered(e * 10_000, t * 10_000, t);
            vstd::arithmetic::div_mod::lemma_div_by_multiple(10_000, t);
        }
        assert((e * 10_000) / t >= 0) by (nonlinear_arith)
            requires
                t > 0,
                0 <= e,
        ;
        assert(-(d * 10_000) == e * 10_000) by (nonlinear_arith)
            requires
                e == -d,
        ;
        if d == -t {
            vstd::arithmetic::div_mod::lemma_div_by_multiple(10_000, t);
            assert(e * 10_000 == 10_000 * t) by (nonlinear_arith)
                requires
                    e == t,
            ;
        }
    }
}

/// With no negative quantity on either side, the imbalance lies between -10000 and
/// 10000 basis points: 10000 with only bids, -10000 with only asks, 0 when both sides
/// show the same quantity, positive or zero when bids are at least the asks and negative
/// or zero when they are at most the asks.
pub proof fn lemma_imbalance_within_bounds(bid: Fixed, ask: Fixed)
    requires
        bid.coefficient >= 0,
        ask.coefficient >= 0,
    ensures
        ({
            let s = if bid.scale >= ask.scale { bid.scale } else { ask.scale };
            let x = bid.coefficient * pow10((s - bid.scale) as nat);
            let y = ask.coefficient * pow10((s - ask.scale) as nat);
            imbalance_spec(bid, ask) matches Some(r) ==> {
                &&& -10_000 <= r <= 10_000
                &&& x >= y ==> r >= 0
                &&& x <= y ==> r <= 0
                &&& (x > 0 && y == 0) ==> r == 10_000
                &&& (x == 0 && y > 0) ==> r == -10_000
            }
        }),
{
    let s = if bid.scale >= ask.scale { bid.scale } else { ask.scale };
    lemma_pow10_pos((s - bid.scale) as nat);
    lemma_pow10_pos((s - ask.scale) as nat);
    let x = bid.coefficient * pow10((s - bid.scale) as nat);
    let y = ask.coefficient * pow10((s - ask.scale) as nat);
    assert(x >= 0 && y >= 0) by (nonlinear_arith)
        requires
            bid.coefficient >= 0,
            ask.coefficient >= 0,
            pow10((s - bid.scale) as nat) >= 1,
            pow10((s - ask.scale) as nat) >= 1,
            x == bid.coefficient * pow10((s - bid.scale) as nat),
            y == ask.coefficient * pow10((s - ask.scale) as nat),
    ;
    if x + y > 0 {
        lemma_ratio_bps(x - y, x + y);
    }
}

pub fn quantity_imbalance_bps(bid: Fixed, ask: Fixed) -> (r: Option<i32>)
    ensures
        r == imbalance_spec(bid, ask),
{
    let s = if bid.scale >= ask.scale { bid.scale } else { ask.scale };
    let b = match rescale_up(bid, s) {
        Some(x) => x,
        None => return None,
    };
    let a = match rescale_up(ask, s) {
        Some(x) => x,
        None => return None,
    };
    let total = match b.coefficient.checked_add(a.coefficient) {
        Some(t) => t,
        None => return None,
    };
    if total <= 0 {
        return Some(0);
    }
    let diff = match b.coefficient.checked_sub(a.coefficient) {
        Some(d) => d,
        None => return None,
    };
    let numerator = match diff.checked_mul(10_000) {
        Some(n) => n,
        None => return None,
    };
    let v: i128 = if numerator >= 0 {
        numerator / total
    } else {
        let magnitude: i128 = (0 - (numerator + 1)) + 1;
        0 - magnitude / total
    };
    let clamped: i128 = if v < i32::MIN as i128 {
        i32::MIN as i128
    } else if v > i32::MAX as i128 {
        i32::MAX as i128
    } else {
        v
    };
    Some(clamped as i32)
}

// ---------------------------------------------------------------------------
// The derivatives read.

/// How old a reading may be before it is shown as stale.
pub const STALE_NS: i64 = 120_000_000_000;

/// The most liquidations a read returns.
pub const LIQUIDATIONS_SHOWN: usize = 100;

pub open spec fn sat_sub_i64(a: i64, b: i64) -> i64 {
    let d = a - b;
    if d > i64::MAX {
        i64::MAX
    } else if d < i64::MIN {
        i64::MIN
    } else {
        d as i64
    }
}

/// How long ago (never negative) a reading stamped `ts` was at `now`.
pub open spec fn age_of(now: i64, ts: i64) -> i64 {
    let d = sat_sub_i64(now, ts);
    if d < 0 {
        0
    } else {
        d
    }
}

/// The fresh funding rates of instruments trading `symbol` on some registered venue,
/// over `derivatives[..n]`.
pub open spec fn fresh_rates(m: PlaneModel, symbol: Seq<char>, now: i64, n: int) -> Seq<Fixed>
    decreases n,
{
    if n <= 0 {
        seq![]
    } else {
        let prev = fresh_rates(m, symbol, now, n - 1);
        let e = m.derivatives[n - 1];
        match lookup(m.names, e.0.0) {
            None => prev,
            Some(name) => if lookup(m.symbols, (name, e.0.1)) == Some(symbol) && e.1.funding is Some
                && sat_sub_i64(now, e.1.funding.unwrap().event_ts_ns) <= STALE_NS {
                prev.push(e.1.funding.unwrap().rate)
            } else {
                prev
            },
        }
    }
}

/// The finest scale among `r[..n]` (0 for none).
pub open spec fn max_scale(r: Seq<Fixed>, n: int) -> u8
    decreases n,
{
    if n <= 0 {
        0
    } else {
        max_u8(max_scale(r, n - 1), r[n - 1].scale)
    }
}

/// The coefficient of `r[i]` at `scale`.
pub open spec fn coef_at(r: Seq<Fixed>, scale: u8, i: int) -> int {
    rescaled(r[i], scale).unwrap().coefficient as int
}

pub open spec fn min_coef(r: Seq<Fixed>, scale: u8, n: int) -> int
    decreases n,
{
    if n <= 1 {
        coef_at(r, scale, 0)
    } else {
        let p = min_coef(r, scale, n - 1);
        if coef_at(r, scale, n - 1) < p { coef_at(r, scale, n - 1) } else { p }
    }
}

pub open spec fn max_coef(r: Seq<Fixed>, scale: u8, n: int) -> int
    decreases n,
{
    if n <= 1 {
        coef_at(r, scale, 0)
    } else {
        let p = max_coef(r, scale, n - 1);
        if coef_at(r, scale, n - 1) > p { coef_at(r, scale, n - 1) } else { p }
    }
}

/// How far the fresh funding rates for a symbol spread across venues: how many there
/// are, the lowest, the highest and their difference, all at the finest scale among
/// them. None with fewer than two rates, or when a value leaves the `i128` range.
pub open spec fn divergence_spec(m: PlaneModel, symbol: Seq<char>, now: i64) -> Option<(nat, Fixed, Fixed, Fixed)> {
    let rates = fresh_rates(m, symbol, now, m.derivatives.len() as int);
    let n = rates.len() as int;
    let s = max_scale(rates, n);
    if n < 2 {
        None
    } else if exists|i: int| 0 <= i < n && #[trigger] rescaled(rates[i], s) is None {
        None
    } else {
        let lo = min_coef(rates, s, n);
        let hi = max_coef(rates, s, n);
        if hi - lo > i128::MAX {
            None
        } else {
            Some((
                n as nat,
                Fixed { coefficient: lo as i128, scale: s },
                Fixed { coefficient: hi as i128, scale: s },
                Fixed { coefficient: (hi - lo) as i128, scale: s },
            ))
        }
    }
}

proof fn lemma_coef_extremes(r: Seq<Fixed>, scale: u8, n: int)
    requires
        1 <= n <= r.len(),
    ensures
        forall|i: int| 0 <= i < n ==> min_coef(r, scale, n) <= #[trigger] coef_at(r, scale, i) <= max_coef(r, scale, n),
        exists|i: int| 0 <= i < n && #[trigger] coef_at(r, scale, i) == min_coef(r, scale, n),
        exists|i: int| 0 <= i < n && #[trigger] coef_at(r, scale, i) == max_coef(r, scale, n),
    decreases n,
{
    if n > 1 {
        lemma_coef_extremes(r, scale, n - 1);
        let lo = choose|i: int| 0 <= i < n - 1 && #[trigger] coef_at(r, scale, i) == min_coef(r, scale, n - 1);
        let hi = choose|i: int| 0 <= i < n - 1 && #[trigger] coef_at(r, scale, i) == max_coef(r, scale, n - 1);
        if coef_at(r, scale, n - 1) < min_coef(r, scale, n - 1) {
            assert(coef_at(r, scale, n - 1) == min_coef(r, scale, n));
        } else {
            assert(coef_at(r, scale, lo) == min_coef(r, scale, n));
        }
        if coef_at(r, scale, n - 1) > max_coef(r, scale, n - 1) {
            assert(coef_at(r, scale, n - 1) == max_coef(r, scale, n));
        } else {
            assert(coef_at(r, scale, hi) == max_coef(r, scale, n));
        }
    } else {
        assert(coef_at(r, scale, 0) == min_coef(r, scale, n));
        assert(coef_at(r, scale, 0) == max_coef(r, scale, n));
    }
}

/// A funding divergence reports the spread of the fresh rates: how many there are, a
/// lowest and a highest at one scale that every rate, brought to that scale, lies
/// between, both taken by some rate, and their difference.
pub proof fn lemma_divergence_is_spread(m: PlaneModel, symbol: Seq<char>, now: i64)
    ensures
        divergence_spec(m, symbol, now) matches Some((count, lo, hi, diff)) ==> {
            let rates = fresh_rates(m, symbol, now, m.derivatives.len() as int);
            &&& count == rates.len() && count >= 2
            &&& lo.scale == hi.scale && diff.scale == hi.scale
            &&& diff.coefficient == hi.coefficient - lo.coefficient
            &&& forall|i: int| 0 <= i < rates.len() ==> (#[trigger] rescaled(rates[i], hi.scale)) is Some
                && lo.coefficient <= rescaled(rates[i], hi.scale)->Some_0.coefficient <= hi.coefficient
            &&& exists|i: int| 0 <= i < rates.len() && (#[trigger] rescaled(rates[i], hi.scale))
                == Some(lo)
            &&& exists|i: int| 0 <= i < rates.len() && (#[trigger] rescaled(rates[i], hi.scale))
                == Some(hi)
        },
{
    let rates = fresh_rates(m, symbol, now, m.derivatives.len() as int);
    let n = rates.len() as int;
    let s = max_scale(rates, n);
    if divergence_spec(m, symbol, now) is Some {
        lemma_coef_extremes(rates, s, n);
        let lo = choose|i: int| 0 <= i < n && #[trigger] coef_at(rates, s, i) == min_coef(rates, s, n);
        let hi = choose|i: int| 0 <= i < n && #[trigger] coef_at(rates, s, i) == max_coef(rates, s, n);
        assert(rescaled(rates[lo], s) is Some);
        assert(rescaled(rates[hi], s) is Some);
        assert(rescaled(rates[lo], s)->Some_0.scale == s);
        assert(rescaled(rates[hi], s)->Some_0.scale == s);
        assert forall|i: int| 0 <= i < n implies (#[trigger] rescaled(rates[i], s)) is Some && min_coef(rates, s, n)
            <= rescaled(rates[i], s)->Some_0.coefficient <= max_coef(rates, s, n) by {
            assert(coef_at(rates, s, i) == rescaled(rates[i], s)->Some_0.coefficient);
        }
    }
}

/// The derivatives state of (config venue id, instrument), when there is one.
pub open spec fn deriv_for(m: PlaneModel, venue: Seq<char>, instrument: u32) -> Option<DerivModel> {
    match lookup(m.venue_ids, venue) {
        None => None,
        Some(v) => lookup(m.derivatives, (v, instrument)),
    }
}

pub open spec fn funding_shown(v: ViewFunding, f: TimedFunding, now: i64) -> bool {
    let age = age_of(now, f.event_ts_ns);
    &&& v.rate@ == fixed_text(f.rate)
    &&& v.event_ts_ns == f.event_ts_ns
    &&& v.next_funding_ts_ns == f.next_funding_ts_ns
    &&& v.age_ms == (age / 1_000_000) as u64
    &&& v.stale == (age > STALE_NS)
}

pub open spec fn open_interest_shown(v: ViewOpenInterest, o: TimedOpenInterest, now: i64) -> bool {
    let age = age_of(now, o.event_ts_ns);
    &&& v.quantity@ == fixed_text(o.quantity)
    &&& v.event_ts_ns == o.event_ts_ns
    &&& v.age_ms == (age / 1_000_000) as u64
    &&& v.stale == (age > STALE_NS)
    &&& match o.previous {
        None => v.change is None && v.change_interval_ns is None,
        Some(p) => match fixed_difference_spec(o.quantity, p.quantity) {
            None => v.change is None && v.change_interval_ns is None,
            Some(c) => opt_view(v.change) == Some(fixed_text(c))
                && v.change_interval_ns == Some(sat_sub_i64(o.event_ts_ns, p.event_ts_ns)),
        },
    }
}

pub open spec fn liquidation_shown(v: ViewLiquidation, l: TimedLiquidation) -> bool {
    &&& v.price@ == fixed_text(l.price)
    &&& v.quantity@ == fixed_text(l.quantity)
    &&& v.side@ == aggressor_text(l.side)
    &&& v.event_ts_ns == l.event_ts_ns
}

pub open spec fn divergence_shown(v: Option<ViewFundingDivergence>, d: Option<(nat, Fixed, Fixed, Fixed)>) -> bool {
    match d {
        None => v is None,
        Some((n, lo, hi, spread)) => v is Some && {
            let x = v.unwrap();
            &&& x.compatible_venues == n
            &&& x.min_rate@ == fixed_text(lo)
            &&& x.max_rate@ == fixed_text(hi)
            &&& x.spread@ == fixed_text(spread)
        },
    }
}

/// What `/v1/derivatives` shows for (config venue id, instrument) at `now` (Unix ns):
/// "unavailable" with nothing when the instrument has no derivatives state; otherwise its
/// revision, funding and open interest with their ages (stale past two minutes), the
/// change in open interest since the previous reading, the funding spread across venues
/// for its symbol, and the newest 100 liquidations, newest first.
pub open spec fn derivatives_shown(r: ViewDerivativesSnapshot, m: PlaneModel, venue: Seq<char>, instrument: u32, now: i64) -> bool {
    let symbol = lookup(m.symbols, (venue, instrument));
    &&& r.schema_version == 1
    &&& r.venue@ == venue
    &&& r.instrument == instrument
    &&& opt_view(r.symbol) == symbol
    &&& match deriv_for(m, venue, instrument) {
        None => {
            &&& r.revision == 0
            &&& r.status@ == "unavailable"@
            &&& r.funding is None
            &&& r.open_interest is None
            &&& r.funding_divergence is None
            &&& r.liquidations@.len() == 0
        },
        Some(d) => {
            let n = d.liquidations.len();
            let shown = if n < LIQUIDATIONS_SHOWN { n } else { LIQUIDATIONS_SHOWN as nat };
            &&& r.revision == d.revision
            &&& r.status@ == (if d.funding is Some || d.open_interest is Some || n > 0 { "live"@ } else { "unavailable"@ })
            &&& match d.funding {
                None => r.funding is None,
                Some(f) => r.funding is Some && funding_shown(r.funding.unwrap(), f, now),
            }
            &&& match d.open_interest {
                None => r.open_interest is None,
                Some(o) => r.open_interest is Some && open_interest_shown(r.open_interest.unwrap(), o, now),
            }
            &&& match symbol {
                None => r.funding_divergence is None,
                Some(sym) => divergence_shown(r.funding_divergence, divergence_spec(m, sym, now)),
            }
            &&& r.liquidations@.len() == shown
            &&& forall|k: int| 0 <= k < shown ==> liquidation_shown(#[trigger] r.liquidations@[k], d.liquidations[n - 1 - k])
        },
    }
}


fn sat_sub_i64_exec(a: i64, b: i64) -> (r: i64)
    ensures
        r == sat_sub_i64(a, b),
{
    let d: i128 = (a as i128) - (b as i128);
    if d > i64::MAX as i128 {
        i64::MAX
    } else if d < i64::MIN as i128 {
        i64::MIN
    } else {
        d as i64
    }
}

fn age_exec(now: i64, ts: i64) -> (r: i64)
    ensures
        r == age_of(now, ts),
        r >= 0,
{
    let d = sat_sub_i64_exec(now, ts);
    if d < 0 {
        0
    } else {
        d
    }
}

fn unavailable_derivatives(venue: &str, instrument: u32, symbol: Option<String>) -> (r: ViewDerivativesSnapshot)
    ensures
        r.schema_version == 1,
        r.venue@ == venue@,
        r.instrument == instrument,
        r.symbol == symbol,
        r.revision == 0,
        r.status@ == "unavailable"@,
        r.funding is None,
        r.open_interest is None,
        r.funding_divergence is None,
        r.liquidations@.len() == 0,
{
    proof {
        reveal_strlit("unavailable");
    }
    ViewDerivativesSnapshot {
        schema_version: 1,
        venue: String::from_str(venue),
        instrument,
        symbol,
        revision: 0,
        status: String::from_str("unavailable"),
        funding: None,
        open_interest: None,
        funding_divergence: None,
        liquidations: Vec::new(),
    }
}

impl ViewPlane {
    /// The spread of fresh funding rates for a symbol across venues.
    fn funding_divergence(&self, symbol: &str, now: i64) -> (r: Option<ViewFundingDivergence>)
        ensures
            divergence_shown(r, divergence_spec(self.model(), symbol@, now)),
    {
        let ghost m = self.model();
        let mut rates: Vec<Fixed> = Vec::new();
        let mut i: usize = 0;
        while i < self.derivatives.len()
            invariant
                i <= self.derivatives@.len(),
                m == self.model(),
                rates@ == fresh_rates(m, symbol@, now, i as int),
            decreases self.derivatives.len() - i,
        {
            let e = &self.derivatives[i];
            assert(m.derivatives[i as int] == ((e.0, e.1), e.2.model()));
            match find_name(&self.names, e.0) {
                None => {},
                Some(j) => {
                    let name = &self.names[j].1;
                    match find_symbol(&self.symbols, name.as_str(), e.1) {
                        None => {},
                        Some(k) => {
                            if str_eq(self.symbols[k].2.as_str(), symbol) {
                                match &e.2.funding {
                                    Some(f) => {
                                        if sat_sub_i64_exec(now, f.event_ts_ns) <= STALE_NS {
                                            rates.push(f.rate);
                                        }
                                    },
                                    None => {},
                                }
                            }
                        },
                    }
                },
            }
            i += 1;
        }
        let ghost rs = rates@;
        let n = rates.len();
        if n < 2 {
            return None;
        }
        let mut s: u8 = 0;
        let mut j: usize = 0;
        while j < n
            invariant
                n == rates@.len(),
                j <= n,
                s == max_scale(rates@, j as int),
            decreases n - j,
        {
            if rates[j].scale > s {
                s = rates[j].scale;
            }
            j += 1;
        }
        let first = match rescale_up(rates[0], s) {
            Some(x) => x,
            None => {
                proof {
                    let rs = fresh_rates(m, symbol@, now, m.derivatives.len() as int);
                    assert(rs == rates@);
                    assert(rescaled(rs[0], max_scale(rs, rs.len() as int)) is None);
                }
                return None;
            },
        };
        let mut lo: i128 = first.coefficient;
        let mut hi: i128 = first.coefficient;
        let mut j: usize = 1;
        while j < n
            invariant
                n == rates@.len(),
                n >= 2,
                1 <= j <= n,
                m == self.model(),
                rates@ == fresh_rates(m, symbol@, now, m.derivatives.len() as int),
                s == max_scale(rates@, n as int),
                forall|q: int| 0 <= q < j ==> #[trigger] rescaled(rates@[q], s) is Some,
                lo == min_coef(rates@, s, j as int),
                hi == max_coef(rates@, s, j as int),
            decreases n - j,
        {
            let x = match rescale_up(rates[j], s) {
                Some(x) => x,
                None => {
                    proof {
                        let rs = fresh_rates(m, symbol@, now, m.derivatives.len() as int);
                        assert(rs == rates@);
                        assert(rescaled(rs[j as int], max_scale(rs, rs.len() as int)) is None);
                    }
                    return None;
                },
            };
            if x.coefficient < lo {
                lo = x.coefficient;
            }
            if x.coefficient > hi {
                hi = x.coefficient;
            }
            j += 1;
        }
        let spread = match hi.checked_sub(lo) {
            Some(d) => d,
            None => return None,
        };
        Some(ViewFundingDivergence {
            compatible_venues: n,
            min_rate: format_fixed(Fixed { coefficient: lo, scale: s }),
            max_rate: format_fixed(Fixed { coefficient: hi, scale: s }),
            spread: format_fixed(Fixed { coefficient: spread, scale: s }),
        })
    }

    /// The derivatives view of (config venue id, instrument) at `now_ns` (Unix ns): see
    /// `derivatives_shown`.
    pub fn derivatives_snapshot(&self, config_id: &str, instrument: u32, now_ns: i64) -> (r: ViewDerivativesSnapshot)
        ensures
            derivatives_shown(r, self.model(), config_id@, instrument, now_ns),
    {
        let ghost m = self.model();
        let symbol = self.symbol_of(config_id, instrument);
        let venue = match self.venue_id(config_id) {
            Some(v) => v,
            None => return unavailable_derivatives(config_id, instrument, symbol),
        };
        proof {
            lemma_first_from(derivs_model(self.derivatives@), (venue, instrument), 0);
        }
        let i = match find_deriv(&self.derivatives, venue, instrument) {
            Some(i) => i,
            None => return unavailable_derivatives(config_id, instrument, symbol),
        };
        let d = &self.derivatives[i].2;
        let ghost dm = d.model();
        assert(deriv_for(m, config_id@, instrument) == Some(dm));
        let funding = match &d.funding {
            Some(f) => {
                let age = age_exec(now_ns, f.event_ts_ns);
                Some(ViewFunding {
                    rate: format_fixed(f.rate),
                    event_ts_ns: f.event_ts_ns,
                    next_funding_ts_ns: f.next_funding_ts_ns,
                    age_ms: (age / 1_000_000) as u64,
                    stale: age > STALE_NS,
                })
            },
            None => None,
        };
        let open_interest = match &d.open_interest {
            Some(o) => {
                let age = age_exec(now_ns, o.event_ts_ns);
                let (change, change_interval_ns) = match &o.previous {
                    Some(p) => match fixed_difference(o.quantity, p.quantity) {
                        Some(c) => (Some(format_fixed(c)), Some(sat_sub_i64_exec(o.event_ts_ns, p.event_ts_ns))),
                        None => (None, None),
                    },
                    None => (None, None),
                };
                Some(ViewOpenInterest {
                    quantity: format_fixed(o.quantity),
                    event_ts_ns: o.event_ts_ns,
                    age_ms: (age / 1_000_000) as u64,
                    stale: age > STALE_NS,
                    change,
                    change_interval_ns,
                })
            },
            None => None,
        };
        let funding_divergence = match &symbol {
            Some(sym) => self.funding_divergence(sym.as_str(), now_ns),
            None => None,
        };
        proof {
            reveal_strlit("live");
            reveal_strlit("unavailable");
        }
        let live = d.funding.is_some() || d.open_interest.is_some() || d.liquidations.len() > 0;
        let status = if live { String::from_str("live") } else { String::from_str("unavailable") };
        let n = d.liquidations.len();
        let shown = if n < LIQUIDATIONS_SHOWN { n } else { LIQUIDATIONS_SHOWN };
        let mut liquidations: Vec<ViewLiquidation> = Vec::new();
        let mut k: usize = 0;
        while k < shown
            invariant
                n == d.liquidations@.len(),
                shown <= n,
                k <= shown,
                liquidations@.len() == k,
                forall|q: int| 0 <= q < k ==> liquidation_shown(#[trigger] liquidations@[q], d.liquidations@[n - 1 - q]),
            decreases shown - k,
        {
            let l = d.liquidations[n - 1 - k];
            liquidations.push(ViewLiquidation {
                price: format_fixed(l.price),
                quantity: format_fixed(l.quantity),
                side: String::from_str(aggressor_str(l.side)),
                event_ts_ns: l.event_ts_ns,
            });
            k += 1;
        }
        ViewDerivativesSnapshot {
            schema_version: 1,
            venue: String::from_str(config_id),
            instrument,
            symbol,
            revision: d.revision,
            status,
            funding,
            open_interest,
            funding_divergence,
            liquidations,
        }
    }
}

// ---------------------------------------------------------------------------
// The status read.

/// `a + b`, stopping at `u64::MAX`.
pub open spec fn sat_add(a: u64, b: u64) -> u64 {
    if a + b > u64::MAX {
        u64::MAX
    } else {
        (a + b) as u64
    }
}

/// One venue's tape counters over `tapes[..n]`: trades held, trades dropped, quotes
/// held, quotes dropped, each summed with saturation.
pub open spec fn tape_totals(tapes: Seq<((u32, u32), TapeModel)>, venue: u32, n: int) -> (u64, u64, u64, u64)
    decreases n,
{
    if n <= 0 {
        (0, 0, 0, 0)
    } else {
        let (t, td, q, qd) = tape_totals(tapes, venue, n - 1);
        let e = tapes[n - 1];
        if e.0.0 != venue {
            (t, td, q, qd)
        } else {
            (
                sat_add(t, e.1.trades.entries.len() as u64),
                sat_add(td, e.1.trades.dropped),
                sat_add(q, e.1.quotes.entries.len() as u64),
                sat_add(qd, e.1.quotes.dropped),
            )
        }
    }
}

/// Process-level facts the status view reports, read by the caller.
#[derive(Debug, Clone, Copy)]
pub struct ProcessStatus {
    pub live: bool,
    pub ready: bool,
    pub started_unix_secs: u64,
    pub now_unix_secs: u64,
    pub lifecycle: Lifecycle,
    pub disk_pressure: bool,
    pub shutdown_draining: bool,
    pub recording_healthy: bool,
    pub recording_queue_len: u64,
    pub recording_dropped: u64,
}

pub open spec fn counters_view(s: Seq<(String, VenueCounters)>) -> Seq<(Seq<char>, VenueCounters)> {
    s.map_values(|p: (String, VenueCounters)| (p.0@, p.1))
}

/// The counters behind one venue's status row; zeros when the venue has none.
pub open spec fn counters_or_zero(c: Option<VenueCounters>) -> (u64, u64, u64, u64, u64, u64) {
    match c {
        Some(c) => (c.events_dispatched, c.events_dropped, c.reconnects, c.book_invalidations, c.valid_books, c.batch_queue_occupancy),
        None => (0, 0, 0, 0, 0, 0),
    }
}

/// One venue's row of `/v1/status`: its configuration, whether it is live, its engine
/// counters, its tape counters and last-seen clocks (once its session registered it), and
/// how far its feed lags at `now` (Unix ns).
pub open spec fn venue_status_shown(
    r: ViewVenueStatus,
    v: VenueConfig,
    m: PlaneModel,
    flags: Seq<(String, bool)>,
    counters: Seq<(String, VenueCounters)>,
    now: i64,
) -> bool {
    let c = counters_or_zero(lookup(counters_view(counters), v.id@));
    let vid = lookup(m.venue_ids, v.id@);
    let totals = match vid {
        Some(x) => tape_totals(m.tapes, x, m.tapes.len() as int),
        None => (0u64, 0u64, 0u64, 0u64),
    };
    let last_event = match vid { Some(x) => lookup(m.last_event, x), None => None };
    let last_trade = match vid { Some(x) => lookup(m.last_trade, x), None => None };
    let last_quote = match vid { Some(x) => lookup(m.last_quote, x), None => None };
    &&& r.id@ == v.id@
    &&& r.adapter@ == v.adapter@
    &&& r.required == v.required
    &&& r.live == venue_is_live(flags, v.id@)
    &&& string_views(r.symbols@) == string_views(v.symbols@)
    &&& (r.events_dispatched, r.events_dropped, r.reconnects, r.book_invalidations, r.valid_books, r.queue_occupancy) == c
    &&& r.feed_lag_ms == feed_lag_spec(now, last_event)
    &&& r.last_event_ts_ns == last_event
    &&& r.last_trade_ts_ns == last_trade
    &&& r.last_quote_ts_ns == last_quote
    &&& (r.tape_trades, r.tape_trades_dropped, r.tape_quotes, r.tape_quotes_dropped) == totals
}

/// `/v1/status`: the process facts, the recorder, the dashboard links and one row per
/// configured venue, in configuration order.
pub open spec fn status_shown(
    r: ViewStatus,
    config: DaemonConfig,
    p: ProcessStatus,
    m: PlaneModel,
    flags: Seq<(String, bool)>,
    counters: Seq<(String, VenueCounters)>,
    now: i64,
) -> bool {
    &&& r.live == p.live
    &&& r.ready == p.ready
    &&& r.uptime_secs == (if p.now_unix_secs >= p.started_unix_secs { (p.now_unix_secs - p.started_unix_secs) as u64 } else { 0 })
    &&& r.lifecycle@ == lifecycle_text(p.lifecycle)
    &&& r.disk_pressure == p.disk_pressure
    &&& r.shutdown_draining == p.shutdown_draining
    &&& r.recording.enabled == config.recording.raw.enabled
    &&& r.recording.healthy == p.recording_healthy
    &&& r.recording.queue_len == p.recording_queue_len
    &&& r.recording.frames_dropped == p.recording_dropped
    &&& opt_view(r.grafana_base_url) == opt_view(config.telemetry.grafana_base_url)
    &&& r.alert_webhook_configured == webhook_configured(opt_view(config.telemetry.alert_webhook_url))
    &&& r.venues@.len() == config.venues@.len()
    &&& forall|i: int| 0 <= i < config.venues@.len() ==> venue_status_shown(#[trigger] r.venues@[i], config.venues@[i], m, flags, counters, now)
}

fn clone_strings(v: &Vec<String>) -> (r: Vec<String>)
    ensures
        string_views(r@) == string_views(v@),
{
    let mut out: Vec<String> = Vec::new();
    let mut i: usize = 0;
    while i < v.len()
        invariant
            i <= v@.len(),
            string_views(out@) == string_views(v@).take(i as int),
        decreases v.len() - i,
    {
        let x = v[i].clone();
        assert(x@ == v@[i as int]@);
        let ghost before = out@;
        out.push(x);
        assert(string_views(out@) =~= string_views(before).push(v@[i as int]@));
        i += 1;
        assert(string_views(out@) =~= string_views(v@).take(i as int));
    }
    assert(string_views(v@).take(v@.len() as int) =~= string_views(v@));
    out
}

fn find_counters(s: &Vec<(String, VenueCounters)>, k: &str) -> (r: Option<VenueCounters>)
    ensures
        r == lookup(counters_view(s@), k@),
{
    let ghost m = counters_view(s@);
    let mut i: usize = 0;
    while i < s.len()
        invariant
            i <= s@.len(),
            m == counters_view(s@),
            first_from(m, k@, 0) == first_from(m, k@, i as int),
        decreases s.len() - i,
    {
        if str_eq(s[i].0.as_str(), k) {
            return Some(s[i].1);
        }
        i += 1;
    }
    None
}

impl ViewPlane {
    /// One venue's tape counters: trades held, trades dropped, quotes held, quotes dropped.
    pub fn venue_tape_stats(&self, venue: u32) -> (r: (u64, u64, u64, u64))
        ensures
            r == tape_totals(self.model().tapes, venue, self.model().tapes.len() as int),
    {
        let ghost tm = self.model().tapes;
        let mut trades: u64 = 0;
        let mut trades_dropped: u64 = 0;
        let mut quotes: u64 = 0;
        let mut quotes_dropped: u64 = 0;
        let mut i: usize = 0;
        while i < self.tapes.len()
            invariant
                i <= self.tapes@.len(),
                tm == tapes_model(self.tapes@),
                (trades, trades_dropped, quotes, quotes_dropped) == tape_totals(tm, venue, i as int),
            decreases self.tapes.len() - i,
        {
            let e = &self.tapes[i];
            if e.0 == venue {
                let (t, td) = e.2.trade_stats();
                let (q, qd) = e.2.quote_stats();
                trades = trades.saturating_add(t);
                trades_dropped = trades_dropped.saturating_add(td);
                quotes = quotes.saturating_add(q);
                quotes_dropped = quotes_dropped.saturating_add(qd);
            }
            i += 1;
        }
        (trades, trades_dropped, quotes, quotes_dropped)
    }

    fn venue_status(
        &self,
        v: &VenueConfig,
        flags: &Vec<(String, bool)>,
        counters: &Vec<(String, VenueCounters)>,
        now_ns: i64,
    ) -> (r: ViewVenueStatus)
        ensures
            venue_status_shown(r, *v, self.model(), flags@, counters@, now_ns),
    {
        let c = find_counters(counters, v.id.as_str());
        let (events_dispatched, events_dropped, reconnects, book_invalidations, valid_books, queue_occupancy) = match c {
            Some(c) => (c.events_dispatched, c.events_dropped, c.reconnects, c.book_invalidations, c.valid_books, c.batch_queue_occupancy),
            None => (0, 0, 0, 0, 0, 0),
        };
        let vid = self.venue_id(v.id.as_str());
        let (tape_trades, tape_trades_dropped, tape_quotes, tape_quotes_dropped) = match vid {
            Some(x) => self.venue_tape_stats(x),
            None => (0, 0, 0, 0),
        };
        let (last_event_ts_ns, last_trade_ts_ns, last_quote_ts_ns) = match vid {
            Some(x) => self.last_seen(x),
            None => (None, None, None),
        };
        ViewVenueStatus {
            id: v.id.clone(),
            adapter: v.adapter.clone(),
            required: v.required,
            live: lookup_live(flags, v.id.as_str()),
            symbols: clone_strings(&v.symbols),
            events_dispatched,
            events_dropped,
            reconnects,
            book_invalidations,
            valid_books,
            queue_occupancy,
            feed_lag_ms: feed_lag_ms(now_ns, last_event_ts_ns),
            last_event_ts_ns,
            last_trade_ts_ns,
            last_quote_ts_ns,
            tape_trades,
            tape_quotes,
            tape_trades_dropped,
            tape_quotes_dropped,
        }
    }

    /// `/v1/status` at `now_ns` (Unix ns): `flags` gives each venue's liveness and
    /// `counters` each venue's engine counters, by config venue id.
    pub fn status(
        &self,
        config: &DaemonConfig,
        process: &ProcessStatus,
        flags: &Vec<(String, bool)>,
        counters: &Vec<(String, VenueCounters)>,
        now_ns: i64,
    ) -> (r: ViewStatus)
        ensures
            status_shown(r, *config, *process, self.model(), flags@, counters@, now_ns),
    {
        let mut venues: Vec<ViewVenueStatus> = Vec::new();
        let mut i: usize = 0;
        while i < config.venues.len()
            invariant
                i <= config.venues@.len(),
                venues@.len() == i,
                forall|k: int| 0 <= k < i ==> venue_status_shown(#[trigger] venues@[k], config.venues@[k], self.model(), flags@, counters@, now_ns),
            decreases config.venues.len() - i,
        {
            let row = self.venue_status(&config.venues[i], flags, counters, now_ns);
            venues.push(row);
            i += 1;
        }
        let grafana_base_url = match &config.telemetry.grafana_base_url {
            Some(u) => Some(u.clone()),
            None => None,
        };
        ViewStatus {
            live: process.live,
            ready: process.ready,
            uptime_secs: process.now_unix_secs.saturating_sub(process.started_unix_secs),
            lifecycle: String::from_str(lifecycle_label(process.lifecycle)),
            disk_pressure: process.disk_pressure,
            shutdown_draining: process.shutdown_draining,
            recording: ViewRecordingStatus {
                enabled: config.recording.raw.enabled,
                healthy: process.recording_healthy,
                queue_len: process.recording_queue_len,
                frames_dropped: process.recording_dropped,
            },
            grafana_base_url,
            alert_webhook_configured: alert_webhook_configured(&config.telemetry),
            venues,
        }
    }
}

// ---------------------------------------------------------------------------
// The depth history read.

pub open spec fn level_shown(v: ViewLevel, c: (i128, i128), price_scale: u8, quantity_scale: u8) -> bool {
    &&& v.price@ == fixed_text(Fixed { coefficient: c.0, scale: price_scale })
    &&& v.quantity@ == fixed_text(Fixed { coefficient: c.1, scale: quantity_scale })
}

pub open spec fn levels_shown(v: Seq<ViewLevel>, c: Seq<(i128, i128)>, price_scale: u8, quantity_scale: u8) -> bool {
    &&& v.len() == c.len()
    &&& forall|k: int| 0 <= k < c.len() ==> level_shown(#[trigger] v[k], c[k], price_scale, quantity_scale)
}

pub open spec fn sample_shown(v: ViewDepthSample, d: DepthModel) -> bool {
    &&& v.event_ts_ns == d.event_ts_ns
    &&& v.epoch == d.epoch
    &&& levels_shown(v.bids@, d.bids, d.price_scale, d.quantity_scale)
    &&& levels_shown(v.asks@, d.asks, d.price_scale, d.quantity_scale)
}

/// The depth history of (config venue id, instrument): the newest `limit` samples
/// (clamped to `1..=600`), oldest first, with the instrument's coalesced and evicted
/// counts.
pub open spec fn depth_history_shown(r: ViewDepthHistory, m: PlaneModel, venue: Seq<char>, instrument: u32, limit: usize) -> bool {
    let vid = lookup(m.venue_ids, venue);
    let h = match vid { Some(v) => history_at(m, (v, instrument)), None => Seq::empty() };
    let l: int = if limit < 1 { 1 } else if limit > DEPTH_HISTORY_CAPACITY { DEPTH_HISTORY_CAPACITY as int } else { limit as int };
    let skip: int = if h.len() > l { h.len() - l } else { 0 };
    &&& r.schema_version == 1
    &&& r.venue@ == venue
    &&& r.instrument == instrument
    &&& opt_view(r.symbol) == lookup(m.symbols, (venue, instrument))
    &&& r.sample_interval_ms == 100
    &&& r.capacity == DEPTH_HISTORY_CAPACITY
    &&& r.coalesced_samples == (match vid { Some(v) => counter_at(m.depth_coalesced, (v, instrument)), None => 0 })
    &&& r.evicted_samples == (match vid { Some(v) => counter_at(m.depth_evicted, (v, instrument)), None => 0 })
    &&& r.samples@.len() == h.len() - skip
    &&& forall|k: int| 0 <= k < h.len() - skip ==> sample_shown(#[trigger] r.samples@[k], h[skip + k])
}

fn view_levels(c: &Vec<(i128, i128)>, price_scale: u8, quantity_scale: u8) -> (r: Vec<ViewLevel>)
    ensures
        levels_shown(r@, c@, price_scale, quantity_scale),
{
    let mut out: Vec<ViewLevel> = Vec::new();
    let mut i: usize = 0;
    while i < c.len()
        invariant
            i <= c@.len(),
            out@.len() == i,
            forall|k: int| 0 <= k < i ==> level_shown(#[trigger] out@[k], c@[k], price_scale, quantity_scale),
        decreases c.len() - i,
    {
        let (p, q) = c[i];
        out.push(ViewLevel {
            price: format_fixed(Fixed { coefficient: p, scale: price_scale }),
            quantity: format_fixed(Fixed { coefficient: q, scale: quantity_scale }),
        });
        i += 1;
    }
    out
}

fn view_depth_sample(d: &StoredDepthSample) -> (r: ViewDepthSample)
    ensures
        sample_shown(r, depth_model(*d)),
{
    ViewDepthSample {
        event_ts_ns: d.event_ts_ns,
        epoch: d.epoch,
        bids: view_levels(&d.bids, d.price_scale, d.quantity_scale),
        asks: view_levels(&d.asks, d.price_scale, d.quantity_scale),
    }
}

impl ViewPlane {
    /// The depth history of (config venue id, instrument): see `depth_history_shown`.
    pub fn depth_history(&self, config_id: &str, instrument: u32, limit: usize) -> (r: ViewDepthHistory)
        ensures
            depth_history_shown(r, self.model(), config_id@, instrument, limit),
    {
        let ghost m = self.model();
        let symbol = self.symbol_of(config_id, instrument);
        let vid = self.venue_id(config_id);
        let l: usize = if limit < 1 { 1 } else if limit > DEPTH_HISTORY_CAPACITY { DEPTH_HISTORY_CAPACITY } else { limit };
        let mut samples: Vec<ViewDepthSample> = Vec::new();
        let mut coalesced_samples: u64 = 0;
        let mut evicted_samples: u64 = 0;
        if let Some(v) = vid {
            coalesced_samples = counter_of(&self.depth_coalesced, (v, instrument));
            evicted_samples = counter_of(&self.depth_evicted, (v, instrument));
            proof {
                lemma_first_from_same_keys(self.depth_history@, histories_model(self.depth_history@), (v, instrument), 0);
            }
            match find_key2(&self.depth_history, (v, instrument)) {
                Some(i) => {
                    let h = &self.depth_history[i].1;
                    let ghost hm = history_model(h@);
                    assert(hm == history_at(m, (v, instrument)));
                    let n = h.len();
                    let skip = if n > l { n - l } else { 0 };
                    let mut k: usize = skip;
                    while k < n
                        invariant
                            skip <= k <= n,
                            n == h@.len(),
                            hm == history_model(h@),
                            samples@.len() == k - skip,
                            forall|j: int| 0 <= j < k - skip ==> sample_shown(#[trigger] samples@[j], hm[skip + j]),
                        decreases n - k,
                    {
                        let row = view_depth_sample(&h[k]);
                        samples.push(row);
                        k += 1;
                    }
                },
                None => {},
            }
        }
        ViewDepthHistory {
            schema_version: 1,
            venue: String::from_str(config_id),
            instrument,
            symbol,
            sample_interval_ms: 100,
            capacity: DEPTH_HISTORY_CAPACITY,
            coalesced_samples,
            evicted_samples,
            samples,
        }
    }
}

// ---------------------------------------------------------------------------
// The instruments read.

/// One venue of `/v1/instruments`: its config id, adapter, process-local id once
/// registered, and its numbered instruments.
#[derive(Debug, Clone)]
pub struct InstrumentListing {
    pub id: String,
    pub adapter: String,
    pub venue_id: Option<u32>,
    pub symbols: Vec<(u32, String)>,
}

pub open spec fn listing_shown(r: InstrumentListing, v: VenueConfig, m: PlaneModel) -> bool {
    &&& r.id@ == v.id@
    &&& r.adapter@ == v.adapter@
    &&& r.venue_id == lookup(m.venue_ids, v.id@)
    &&& crate::view::numbered_view(r.symbols@) == crate::view::venue_instruments_spec(v)
}

impl ViewPlane {
    /// `/v1/instruments`: one listing per configured venue, in configuration order.
    pub fn instruments(&self, config: &DaemonConfig) -> (r: Vec<InstrumentListing>)
        requires
            forall|i: int| 0 <= i < config.venues@.len() ==> (#[trigger] config.venues@[i]).symbols@.len() < u32::MAX,
        ensures
            r@.len() == config.venues@.len(),
            forall|i: int| 0 <= i < config.venues@.len() ==> listing_shown(#[trigger] r@[i], config.venues@[i], self.model()),
    {
        let mut out: Vec<InstrumentListing> = Vec::new();
        let mut i: usize = 0;
        while i < config.venues.len()
            invariant
                i <= config.venues@.len(),
                out@.len() == i,
                forall|j: int| 0 <= j < config.venues@.len() ==> (#[trigger] config.venues@[j]).symbols@.len() < u32::MAX,
                forall|j: int| 0 <= j < i ==> listing_shown(#[trigger] out@[j], config.venues@[j], self.model()),
            decreases config.venues.len() - i,
        {
            let v = &config.venues[i];
            assert(config.venues@[i as int].symbols@.len() < u32::MAX);
            out.push(InstrumentListing {
                id: v.id.clone(),
                adapter: v.adapter.clone(),
                venue_id: self.venue_id(v.id.as_str()),
                symbols: crate::view::venue_instruments(v),
            });
            i += 1;
        }
        out
    }
}

// ---------------------------------------------------------------------------
// Laws.

/// The rows held on the trade (`trade`) or quote tape of `key`; none before it has tapes.
pub open spec fn held_rows(m: PlaneModel, key: (u32, u32), trade: bool) -> Seq<EntryView> {
    match lookup(m.tapes, key) {
        Some(t) => if trade { t.trades.entries } else { t.quotes.entries },
        None => Seq::empty(),
    }
}

/// Trades and quotes have separate tapes: an event never changes the rows held on the
/// tape of the other kind, so a flood of quotes cannot evict a trade, nor the reverse.
pub proof fn lemma_kinds_do_not_evict_each_other(m: PlaneModel, cfg: ViewPlaneConfig, ev: PlaneEvent, now: u64, key: (u32, u32))
    ensures
        !(ev.payload is Trade) ==> held_rows(event_step(m, cfg, ev, now), key, true) == held_rows(m, key, true),
        !(ev.payload is Quote) ==> held_rows(event_step(m, cfg, ev, now), key, false) == held_rows(m, key, false),
{
    if let Some(inst) = ev.instrument {
        let k0 = (ev.venue, inst);
        let m1 = touch_venue(m, ev);
        assert(m1.tapes == m.tapes);
        if ev.payload is Trade || ev.payload is Quote {
            let trade = ev.payload is Trade;
            let t = tape_at(m1, cfg, k0, now);
            let ring = if trade { t.trades } else { t.quotes };
            let pushed = ring.pushed(
                if trade { trade_row(m, ev, inst) } else { quote_row(m, ev, inst) },
                now,
            );
            let nt = if trade { TapeModel { trades: pushed, quotes: t.quotes } } else { TapeModel { trades: t.trades, quotes: pushed } };
            lemma_lookup_upsert(m.tapes, k0, nt, key);
        }
    }
}

/// Every tape ring holds at most its capacity, which is at least one.
pub proof fn lemma_tapes_within_capacity(p: &ViewPlane)
    requires
        p.wf(),
    ensures
        forall|i: int| 0 <= i < p.model().tapes.len() ==> {
            let t = #[trigger] p.model().tapes[i];
            &&& t.1.trades.entries.len() <= t.1.trades.capacity
            &&& t.1.quotes.entries.len() <= t.1.quotes.capacity
            &&& t.1.trades.capacity >= 1
            &&& t.1.quotes.capacity >= 1
        },
{
    assert forall|i: int| 0 <= i < p.model().tapes.len() implies {
        let t = #[trigger] p.model().tapes[i];
        &&& t.1.trades.entries.len() <= t.1.trades.capacity
        &&& t.1.quotes.entries.len() <= t.1.quotes.capacity
        &&& t.1.trades.capacity >= 1
        &&& t.1.quotes.capacity >= 1
    } by {
        let e = p.tapes@[i];
        assert(e.2.wf());
        lemma_ring_within_capacity(e.2.trades);
        lemma_ring_within_capacity(e.2.quotes);
    }
}

proof fn lemma_with_symbols_reads_back(s: Seq<((Seq<char>, u32), Seq<char>)>, venue: Seq<char>, syms: Seq<Seq<char>>, n: nat, j: int)
    requires
        0 <= j < n <= syms.len() < u32::MAX,
    ensures
        lookup(with_symbols(s, venue, syms, n), (venue, (j + 1) as u32)) == Some(syms[j]),
    decreases n,
{
    let prev = with_symbols(s, venue, syms, (n - 1) as nat);
    lemma_lookup_upsert(prev, (venue, n as u32), syms[n - 1], (venue, (j + 1) as u32));
    if j < n - 1 {
        lemma_with_symbols_reads_back(s, venue, syms, (n - 1) as nat, j);
    }
}

/// After a venue registers, its config id and process-local id map to each other, and
/// each of its symbols reads back as instrument 1, 2, ...
pub proof fn lemma_registration_reads_back(m: PlaneModel, venue: u32, config_id: Seq<char>, syms: Seq<Seq<char>>, j: int)
    requires
        syms.len() < u32::MAX,
    ensures
        lookup(register_venue_spec(m, venue, config_id, syms).venue_ids, config_id) == Some(venue),
        lookup(register_venue_spec(m, venue, config_id, syms).names, venue) == Some(config_id),
        0 <= j < syms.len() ==> lookup(register_venue_spec(m, venue, config_id, syms).symbols, (config_id, (j + 1) as u32)) == Some(syms[j]),
{
    lemma_lookup_upsert(m.venue_ids, config_id, venue, config_id);
    lemma_lookup_upsert(m.names, venue, config_id, venue);
    if 0 <= j < syms.len() {
        lemma_with_symbols_reads_back(m.symbols, config_id, syms, syms.len(), j);
    }
}

/// An instrument never keeps more than 512 liquidations, and each derivatives event
/// moves its revision on by one (stopping at the top of `u64`).
pub proof fn lemma_derivatives_bounded(d: DerivModel, ev: PlaneEvent)
    requires
        d.liquidations.len() <= LIQUIDATIONS_KEPT,
    ensures
        deriv_after(d, ev).liquidations.len() <= LIQUIDATIONS_KEPT,
        is_derivative(ev.payload) ==> deriv_after(d, ev).revision == saturating_inc(d.revision),
{
}

/// A second open-interest reading keeps the first as its previous one, so the change
/// between them can be shown.
pub proof fn lemma_open_interest_remembers_previous(d: DerivModel, first: PlaneEvent, second: PlaneEvent)
    requires
        first.payload is OpenInterest,
        second.payload is OpenInterest,
    ensures
        deriv_after(deriv_after(d, first), second).open_interest.unwrap().previous == Some(
            OpenInterestReading { quantity: first.payload->OpenInterest_quantity, event_ts_ns: event_ts(first) },
        ),
        deriv_after(deriv_after(d, first), second).open_interest.unwrap().quantity == second.payload->OpenInterest_quantity,
{
}

/// Registering a venue never forgets the venue's name: an event from it is shown under
/// its config id.
pub proof fn lemma_registered_venue_keeps_its_name(m: PlaneModel, venue: u32, config_id: Seq<char>, syms: Seq<Seq<char>>, ev: PlaneEvent)
    requires
        ev.venue == venue,
    ensures
        venue_name(register_venue_spec(m, venue, config_id, syms), ev.venue) == config_id,
        lookup(touch_venue(register_venue_spec(m, venue, config_id, syms), ev).names, venue) == Some(config_id),
{
    let r = register_venue_spec(m, venue, config_id, syms);
    lemma_lookup_upsert(m.names, venue, config_id, venue);
    lemma_lookup_insert_absent(r.names, venue, venue_name(r, venue), venue);
}

proof fn lemma_merge_views_len(a: Seq<EntryView>, b: Seq<EntryView>, limit: nat)
    ensures
        merge_views(a, b, limit).len() <= limit,
        merge_views(a, b, limit).len() <= a.len() + b.len(),
    decreases limit,
{
    if limit == 0 || (a.len() == 0 && b.len() == 0) {
    } else if b.len() == 0 || (a.len() > 0 && crate::tape::view_ts(a[0]) >= crate::tape::view_ts(b[0])) {
        lemma_merge_views_len(a.drop_first(), b, (limit - 1) as nat);
    } else {
        lemma_merge_views_len(a, b.drop_first(), (limit - 1) as nat);
    }
}

/// A tape read returns at most `limit` rows (one when asked for none), and never more
/// than the tapes hold.
pub proof fn lemma_tape_read_bounded(m: PlaneModel, venue: Seq<char>, instrument: u32, limit: usize, kind: Option<Seq<char>>)
    ensures
        tape_read(m, venue, instrument, limit, kind).len() <= (if limit < 1 { 1 } else { limit as nat }),
        tape_read(m, venue, instrument, limit, kind).len() <= ({
            match lookup(m.venue_ids, venue) {
                Some(v) => (held_rows(m, (v, instrument), true).len() + held_rows(m, (v, instrument), false).len()) as nat,
                None => 0nat,
            }
        }),
{
    if let Some(v) = lookup(m.venue_ids, venue) {
        if let Some(t) = lookup(m.tapes, (v, instrument)) {
            let l: nat = if limit < 1 { 1 } else { limit as nat };
            let tr = newest_first(t.trades.entries, if l < t.trades.entries.len() { l } else { t.trades.entries.len() });
            let q = newest_first(t.quotes.entries, if l < t.quotes.entries.len() { l } else { t.quotes.entries.len() });
            lemma_merge_views_len(tr, q, l);
        }
    }
}

/// An instrument never holds more than 600 depth samples.
pub proof fn lemma_depth_history_bounded(m: PlaneModel, key: (u32, u32), ts: i64, bids: Seq<DepthLevel>, asks: Seq<DepthLevel>, k: (u32, u32))
    requires
        history_at(m, k).len() <= DEPTH_HISTORY_CAPACITY,
    ensures
        history_at(depth_sampled(m, key, ts, bids, asks), k).len() <= DEPTH_HISTORY_CAPACITY,
{
    if !coalesces(m, key, ts) {
        let h = history_at(m, key);
        let full = h.len() >= DEPTH_HISTORY_CAPACITY;
        let (ps, qs) = first_scales(bids, asks);
        let sample = DepthModel {
            event_ts_ns: ts,
            epoch: counter_at(m.depth_epochs, key),
            price_scale: ps,
            quantity_scale: qs,
            bids: level_coefficients(bids),
            asks: level_coefficients(asks),
        };
        lemma_lookup_upsert(m.depth_history, key, (if full { h.drop_first() } else { h }).push(sample), k);
    }
}

/// A book event of an instrument leaves the levels it reports as the instrument's book,
/// and no other instrument's book changes.
pub proof fn lemma_book_reads_back(m: PlaneModel, cfg: ViewPlaneConfig, ev: PlaneEvent, now: u64, key: (u32, u32))
    requires
        ev.instrument is Some,
        ev.payload is Book,
        ev.payload->depth is Some,
    ensures
        book_at(event_step(m, cfg, ev, now), key) == (if key == (ev.venue, ev.instrument->0) {
            Some((ev.payload->depth->0.bids@, ev.payload->depth->0.asks@))
        } else {
            book_at(m, key)
        }),
{
    let d = ev.payload->depth->0;
    let k = (ev.venue, ev.instrument->0);
    let m1 = touch_venue(m, ev);
    let sampled = depth_sampled(
        m1,
        k,
        ev.receive_ts,
        top_levels(d.bids@, DEPTH_SAMPLE_LEVELS as nat),
        top_levels(d.asks@, DEPTH_SAMPLE_LEVELS as nat),
    );
    assert(sampled.books == m.books);
    lemma_lookup_upsert(sampled.books, k, Some((d.bids@, d.asks@)), key);
}

/// A book invalidation drops the book of that venue's instrument and no other.
pub proof fn lemma_invalidation_drops_only_its_book(m: PlaneModel, v: u32, instrument: u32, key: (u32, u32))
    ensures
        book_at(invalidated(m, Some(v), instrument), key) == (if key == (v, instrument) { None } else { book_at(m, key) }),
{
    lemma_lookup_upsert(m.books, (v, instrument), None, key);
}

/// After a book invalidation the instrument's next update is sampled at once, in a new
/// epoch.
pub proof fn lemma_invalidation_resamples(m: PlaneModel, v: u32, instrument: u32, ts: i64, bids: Seq<DepthLevel>, asks: Seq<DepthLevel>)
    ensures
        !coalesces(invalidated(m, Some(v), instrument), (v, instrument), ts),
        counter_at(invalidated(m, Some(v), instrument).depth_epochs, (v, instrument)) == saturating_inc(counter_at(m.depth_epochs, (v, instrument))),
        history_at(depth_sampled(invalidated(m, Some(v), instrument), (v, instrument), ts, bids, asks), (v, instrument)).last().epoch
            == saturating_inc(counter_at(m.depth_epochs, (v, instrument))),
{
    let key = (v, instrument);
    let mi = invalidated(m, Some(v), instrument);
    lemma_lookup_upsert(m.depth_last, key, None, key);
    lemma_lookup_upsert(m.depth_epochs, key, saturating_inc(counter_at(m.depth_epochs, key)), key);
    let h = history_at(mi, key);
    let full = h.len() >= DEPTH_HISTORY_CAPACITY;
    let (ps, qs) = first_scales(bids, asks);
    let sample = DepthModel {
        event_ts_ns: ts,
        epoch: counter_at(mi.depth_epochs, key),
        price_scale: ps,
        quantity_scale: qs,
        bids: level_coefficients(bids),
        asks: level_coefficients(asks),
    };
    lemma_lookup_upsert(mi.depth_history, key, (if full { h.drop_first() } else { h }).push(sample), key);
}

// ---------------------------------------------------------------------------
// The book and depth-of-market reads.

/// The live book of an instrument, if it has one.
pub open spec fn book_at(m: PlaneModel, key: (u32, u32)) -> Option<(Seq<DepthLevel>, Seq<DepthLevel>)> {
    match lookup(m.books, key) {
        Some(b) => b,
        None => None,
    }
}

/// The levels a book read shows of one side: the first `depth`, or all without a depth.
pub open spec fn side_shown(v: Seq<ViewLevel>, levels: Seq<DepthLevel>, depth: Option<u32>) -> bool {
    let l = match depth {
        Some(d) => top_levels(levels, d as nat),
        None => levels,
    };
    &&& v.len() == l.len()
    &&& forall|i: int| 0 <= i < v.len() ==> (#[trigger] v[i]).price@ == fixed_text(l[i].price) && v[i].quantity@ == fixed_text(l[i].quantity)
}

/// What the book read of (config venue id, instrument) shows: nothing unless the venue
/// is registered and the instrument has a live book; otherwise its symbol, the depth
/// asked for and the levels of each side (see `side_shown`).
pub open spec fn book_shown(r: Option<ViewBookSnapshot>, m: PlaneModel, venue: Seq<char>, instrument: u32, depth: Option<u32>) -> bool {
    match lookup(m.venue_ids, venue) {
        None => r is None,
        Some(v) => match book_at(m, (v, instrument)) {
            None => r is None,
            Some((bids, asks)) => r is Some && {
                let b = r.unwrap();
                &&& b.venue@ == venue
                &&& b.instrument == instrument
                &&& opt_view(b.symbol) == lookup(m.symbols, (venue, instrument))
                &&& b.depth == depth
                &&& side_shown(b.bids@, bids, depth)
                &&& side_shown(b.asks@, asks, depth)
            },
        },
    }
}

fn view_book_side(levels: &Vec<DepthLevel>) -> (r: Vec<ViewLevel>)
    ensures
        side_shown(r@, levels@, None),
{
    let mut out: Vec<ViewLevel> = Vec::new();
    let mut i: usize = 0;
    while i < levels.len()
        invariant
            i <= levels@.len(),
            out@.len() == i,
            forall|k: int| 0 <= k < i ==> (#[trigger] out@[k]).price@ == fixed_text(levels@[k].price) && out@[k].quantity@
                == fixed_text(levels@[k].quantity),
        decreases levels.len() - i,
    {
        out.push(ViewLevel { price: format_fixed(levels[i].price), quantity: format_fixed(levels[i].quantity) });
        i += 1;
    }
    out
}

/// The depth a depth-of-market read asks of the book: 1 to 100 levels.
pub open spec fn dom_depth(depth: usize) -> nat {
    if depth < 1 {
        1
    } else if depth > 100 {
        100
    } else {
        depth as nat
    }
}

/// The execution window of a depth-of-market read: 1 s to an hour.
pub open spec fn dom_window(sec: u64) -> u64 {
    if sec < 1 {
        1
    } else if sec > 3_600 {
        3_600
    } else {
        sec
    }
}

/// The newest depth sample of a history, and the one before it.
pub open spec fn latest_sample(h: Seq<DepthModel>) -> Option<DepthModel> {
    if h.len() >= 1 {
        Some(h.last())
    } else {
        None
    }
}

pub open spec fn previous_sample(h: Seq<DepthModel>) -> Option<DepthModel> {
    if h.len() >= 2 {
        Some(h[h.len() - 2])
    } else {
        None
    }
}

/// What a depth-of-market read of (config venue id, instrument) finds at `now` (Unix
/// ns): fails unless the venue is registered and the instrument has a live book;
/// otherwise the rows of the book's first `dom_depth(depth)` levels on each side, given
/// the newest two depth samples and the trades on the tape since `dom_window(window)`
/// seconds before `now`, with the newest sample's time (0 when negative or absent) as
/// revision and its epoch.
pub open spec fn dom_read(m: PlaneModel, venue: Seq<char>, instrument: u32, depth: usize, window: u64, now: i64) -> Result<
    (u64, u64, Seq<DomRowValues>),
    Seq<char>,
> {
    match lookup(m.venue_ids, venue) {
        None => Err("venue_not_registered"@),
        Some(v) => match book_at(m, (v, instrument)) {
            None => Err("book_unavailable"@),
            Some((bids, asks)) => {
                let h = history_at(m, (v, instrument));
                let latest = latest_sample(h);
                let trades = match lookup(m.tapes, (v, instrument)) {
                    Some(t) => t.trades.entries,
                    None => Seq::empty(),
                };
                let cutoff = sat_sub_i64(now, (dom_window(window) * 1_000_000_000) as i64);
                let n = dom_depth(depth);
                match dom_rows_spec(top_levels(bids, n), top_levels(asks, n), latest, previous_sample(h), trades, cutoff) {
                    Err(e) => Err(e),
                    Ok(rows) => Ok(
                        (
                            match latest {
                                Some(d) => if d.event_ts_ns >= 0 {
                                    d.event_ts_ns as u64
                                } else {
                                    0
                                },
                                None => 0,
                            },
                            match latest {
                                Some(d) => d.epoch,
                                None => 0,
                            },
                            rows,
                        ),
                    ),
                }
            },
        },
    }
}

/// What `/v1/dom` shows: "live" with the rows, revision and epoch `dom_read` finds, or
/// "unavailable" with the reason it fails and nothing else.
pub open spec fn dom_shown(r: ViewDomSnapshot, m: PlaneModel, venue: Seq<char>, instrument: u32, depth: usize, window: u64, now: i64) -> bool {
    &&& r.schema_version == 1
    &&& r.venue@ == venue
    &&& r.instrument == instrument
    &&& opt_view(r.symbol) == lookup(m.symbols, (venue, instrument))
    &&& r.execution_window_sec == dom_window(window)
    &&& match dom_read(m, venue, instrument, depth, window, now) {
        Err(reason) => {
            &&& r.revision == 0
            &&& r.status@ == "unavailable"@
            &&& opt_view(r.reason) == Some(reason)
            &&& r.epoch == 0
            &&& r.rows@.len() == 0
        },
        Ok((revision, epoch, rows)) => {
            &&& r.revision == revision
            &&& r.status@ == "live"@
            &&& r.reason is None
            &&& r.epoch == epoch
            &&& rows_shown(r.rows@, rows)
        },
    }
}

fn unavailable_dom(venue: &str, instrument: u32, symbol: Option<String>, window_sec: u64, reason: &str) -> (r: ViewDomSnapshot)
    ensures
        r.schema_version == 1,
        r.venue@ == venue@,
        r.instrument == instrument,
        r.symbol == symbol,
        r.revision == 0,
        r.status@ == "unavailable"@,
        opt_view(r.reason) == Some(reason@),
        r.execution_window_sec == window_sec,
        r.epoch == 0,
        r.rows@.len() == 0,
{
    proof {
        reveal_strlit("unavailable");
    }
    ViewDomSnapshot {
        schema_version: 1,
        venue: String::from_str(venue),
        instrument,
        symbol,
        revision: 0,
        status: String::from_str("unavailable"),
        reason: Some(String::from_str(reason)),
        execution_window_sec: window_sec,
        epoch: 0,
        rows: Vec::new(),
    }
}

impl ViewPlane {
    /// The live book of (venue, instrument), if any.
    fn book_of(&self, venue: u32, instrument: u32) -> (r: Option<&DepthSnapshot>)
        ensures
            match r {
                Some(b) => book_at(self.model(), (venue, instrument)) == Some((b.bids@, b.asks@)),
                None => book_at(self.model(), (venue, instrument)) is None,
            },
    {
        proof {
            lemma_first_from_same_keys(self.books@, books_model(self.books@), (venue, instrument), 0);
        }
        match find_key2(&self.books, (venue, instrument)) {
            Some(i) => match &self.books[i].1 {
                Some(b) => Some(b),
                None => None,
            },
            None => None,
        }
    }

    /// The book read of (config venue id, instrument): see `book_shown`.
    pub fn book_snapshot(&self, config_id: &str, instrument: u32, depth: Option<u32>) -> (r: Option<ViewBookSnapshot>)
        ensures
            book_shown(r, self.model(), config_id@, instrument, depth),
    {
        let venue = match self.venue_id(config_id) {
            Some(v) => v,
            None => return None,
        };
        let book = match self.book_of(venue, instrument) {
            Some(b) => b,
            None => return None,
        };
        let (bids, asks) = match depth {
            Some(d) => (copy_levels(&book.bids, d as usize), copy_levels(&book.asks, d as usize)),
            None => (copy_levels(&book.bids, usize::MAX), copy_levels(&book.asks, usize::MAX)),
        };
        let symbol = self.symbol_of(config_id, instrument);
        Some(ViewBookSnapshot {
            venue: String::from_str(config_id),
            instrument,
            symbol,
            depth,
            bids: view_book_side(&bids),
            asks: view_book_side(&asks),
        })
    }

    /// The newest two depth samples of an instrument.
    fn latest_samples(&self, key: (u32, u32)) -> (r: (Option<&StoredDepthSample>, Option<&StoredDepthSample>))
        ensures
            crate::dom::sample_model(r.0) == latest_sample(history_at(self.model(), key)),
            crate::dom::sample_model(r.1) == previous_sample(history_at(self.model(), key)),
    {
        let ghost h = history_at(self.model(), key);
        proof {
            lemma_first_from_same_keys(self.depth_history@, histories_model(self.depth_history@), key, 0);
        }
        match find_key2(&self.depth_history, key) {
            Some(i) => {
                let d = &self.depth_history[i].1;
                assert(history_model(d@) == h);
                let len = d.len();
                (if len >= 1 { Some(&d[len - 1]) } else { None }, if len >= 2 { Some(&d[len - 2]) } else { None })
            },
            None => (None, None),
        }
    }

    /// The trade tape of an instrument, oldest first; empty when it has none.
    fn trade_rows(&self, venue: u32, instrument: u32) -> (r: Vec<TapeEntry>)
        ensures
            entry_views(r@) == (match lookup(self.model().tapes, (venue, instrument)) {
                Some(t) => t.trades.entries,
                None => Seq::<EntryView>::empty(),
            }),
    {
        proof {
            lemma_first_from(tapes_model(self.tapes@), (venue, instrument), 0);
        }
        match find_tape(&self.tapes, venue, instrument) {
            Some(i) => self.tapes[i].2.trades.oldest_first(),
            None => {
                let r: Vec<TapeEntry> = Vec::new();
                assert(entry_views(r@) =~= Seq::<EntryView>::empty());
                r
            },
        }
    }

    /// What a depth-of-market read finds: see `dom_read`.
    fn dom_find(&self, config_id: &str, instrument: u32, depth: usize, window_sec: u64, now_ns: i64) -> (r: Result<
        (u64, u64, Vec<ViewDomRow>),
        &'static str,
    >)
        requires
            1 <= window_sec <= 3_600,
        ensures
            match (r, dom_read(self.model(), config_id@, instrument, depth, window_sec, now_ns)) {
                (Ok((rev, ep, rows)), Ok((rev2, ep2, vals))) => rev == rev2 && ep == ep2 && rows_shown(rows@, vals),
                (Err(e), Err(x)) => e@ == x,
                _ => false,
            },
    {
        let ghost m = self.model();
        let venue = match self.venue_id(config_id) {
            Some(v) => v,
            None => return Err("venue_not_registered"),
        };
        let book = match self.book_of(venue, instrument) {
            Some(b) => b,
            None => return Err("book_unavailable"),
        };
        let n: usize = if depth < 1 {
            1
        } else if depth > 100 {
            100
        } else {
            depth
        };
        let bids = copy_levels(&book.bids, n);
        let asks = copy_levels(&book.asks, n);
        let (latest, previous) = self.latest_samples((venue, instrument));
        let trades = self.trade_rows(venue, instrument);
        let cutoff = sat_sub_i64_exec(now_ns, (window_sec as i64) * 1_000_000_000);
        let revision: u64 = match latest {
            Some(d) => if d.event_ts_ns >= 0 {
                d.event_ts_ns as u64
            } else {
                0
            },
            None => 0,
        };
        let epoch: u64 = match latest {
            Some(d) => d.epoch,
            None => 0,
        };
        assert(dom_window(window_sec) == window_sec);
        match dom_rows(&bids, &asks, latest, previous, &trades, cutoff) {
            Ok(rows) => Ok((revision, epoch, rows)),
            Err(e) => Err(e),
        }
    }

    /// The depth-of-market read of (config venue id, instrument) at `now_ns` (Unix ns):
    /// see `dom_shown`.
    pub fn dom_snapshot(&self, config_id: &str, instrument: u32, depth: usize, execution_window_sec: u64, now_ns: i64) -> (r: ViewDomSnapshot)
        ensures
            dom_shown(r, self.model(), config_id@, instrument, depth, execution_window_sec, now_ns),
    {
        let symbol = self.symbol_of(config_id, instrument);
        let window_sec: u64 = if execution_window_sec < 1 {
            1
        } else if execution_window_sec > 3_600 {
            3_600
        } else {
            execution_window_sec
        };
        assert(dom_window(execution_window_sec) == window_sec);
        assert(dom_read(self.model(), config_id@, instrument, depth, execution_window_sec, now_ns)
            == dom_read(self.model(), config_id@, instrument, depth, window_sec, now_ns));
        proof {
            reveal_strlit("live");
        }
        match self.dom_find(config_id, instrument, depth, window_sec, now_ns) {
            Ok((revision, epoch, rows)) => ViewDomSnapshot {
                schema_version: 1,
                venue: String::from_str(config_id),
                instrument,
                symbol,
                revision,
                status: String::from_str("live"),
                reason: None,
                execution_window_sec: window_sec,
                epoch,
                rows,
            },
            Err(reason) => unavailable_dom(config_id, instrument, symbol, window_sec, reason),
        }
    }
}

/// The plain sums, over the tapes of `venue` among `tapes[..n]`, of trades held, trades
/// dropped, quotes held and quotes dropped.
pub open spec fn venue_tape_sums(tapes: Seq<((u32, u32), TapeModel)>, venue: u32, n: int) -> (int, int, int, int)
    decreases n,
{
    if n <= 0 {
        (0, 0, 0, 0)
    } else {
        let (t, td, q, qd) = venue_tape_sums(tapes, venue, n - 1);
        let e = tapes[n - 1];
        if e.0.0 != venue {
            (t, td, q, qd)
        } else {
            (t + e.1.trades.entries.len(), td + e.1.trades.dropped, q + e.1.quotes.entries.len(), qd + e.1.quotes.dropped)
        }
    }
}

pub open spec fn capped(x: int) -> int {
    if x > u64::MAX { u64::MAX as int } else { x }
}

proof fn lemma_tape_totals_sum(tapes: Seq<((u32, u32), TapeModel)>, venue: u32, n: int)
    requires
        0 <= n <= tapes.len(),
        forall|k: int| 0 <= k < tapes.len() ==> (#[trigger] tapes[k]).1.trades.entries.len() <= u64::MAX
            && tapes[k].1.quotes.entries.len() <= u64::MAX,
    ensures
        ({
            let (t, td, q, qd) = tape_totals(tapes, venue, n);
            let (st, std, sq, sqd) = venue_tape_sums(tapes, venue, n);
            &&& t as int == capped(st)
            &&& td as int == capped(std)
            &&& q as int == capped(sq)
            &&& qd as int == capped(sqd)
            &&& st >= 0 && std >= 0 && sq >= 0 && sqd >= 0
        }),
    decreases n,
{
    if n > 0 {
        lemma_tape_totals_sum(tapes, venue, n - 1);
        let _ = tapes[n - 1];
    }
}

proof fn lemma_events_keep_batch_count(m: PlaneModel, cfg: ViewPlaneConfig, evs: Seq<PlaneEvent>, now: u64, n: nat)
    ensures
        events_step(m, cfg, evs, now, n).batches_seen == m.batches_seen,
    decreases n,
{
    if n > 0 {
        lemma_events_keep_batch_count(m, cfg, evs, now, (n - 1) as nat);
    }
}

/// Every batch is counted once, whatever its events (the count wraps at the top of
/// `u64`); events themselves never change the count.
pub proof fn lemma_each_batch_counted_once(m: PlaneModel, cfg: ViewPlaneConfig, evs: Seq<PlaneEvent>, now: u64)
    ensures
        batch_step(m, cfg, evs, now).batches_seen == wrap_add(m.batches_seen, 1),
        forall|ev: PlaneEvent| #[trigger] event_step(m, cfg, ev, now).batches_seen == m.batches_seen,
{
    lemma_events_keep_batch_count(PlaneModel { batches_seen: wrap_add(m.batches_seen, 1), ..m }, cfg, evs, now, evs.len());
}

/// On a view plane, `venue_tape_stats` adds up over all the venue's instruments: each of
/// trades held, trades dropped, quotes held and quotes dropped is the sum over every tape
/// of that venue, stopping at `u64::MAX`.
pub proof fn lemma_plane_tape_stats_sum_every_instrument(p: ViewPlane, venue: u32)
    requires
        p.wf(),
    ensures
        ({
            let m = p.model();
            let (t, td, q, qd) = tape_totals(m.tapes, venue, m.tapes.len() as int);
            let (st, std, sq, sqd) = venue_tape_sums(m.tapes, venue, m.tapes.len() as int);
            &&& t as int == capped(st)
            &&& td as int == capped(std)
            &&& q as int == capped(sq)
            &&& qd as int == capped(sqd)
        }),
{
    let m = p.model();
    assert forall|k: int| 0 <= k < m.tapes.len() implies (#[trigger] m.tapes[k]).1.trades.entries.len() <= u64::MAX
        && m.tapes[k].1.quotes.entries.len() <= u64::MAX by {
        let t = p.tapes@[k].2;
        assert(t.wf());
        crate::tape::lemma_ring_within_capacity(t.trades);
        crate::tape::lemma_ring_within_capacity(t.quotes);
        assert(m.tapes[k].1 == tape_model(t));
    }
    lemma_venue_tape_stats_sum_every_instrument(m, venue);
}

/// A venue's tape counters add up over all its instruments' tapes: each of trades held,
/// trades dropped, quotes held and quotes dropped is the sum over every tape of that
/// venue, stopping at `u64::MAX`.
pub proof fn lemma_venue_tape_stats_sum_every_instrument(m: PlaneModel, venue: u32)
    requires
        forall|k: int| 0 <= k < m.tapes.len() ==> (#[trigger] m.tapes[k]).1.trades.entries.len() <= u64::MAX
            && m.tapes[k].1.quotes.entries.len() <= u64::MAX,
    ensures
        ({
            let (t, td, q, qd) = tape_totals(m.tapes, venue, m.tapes.len() as int);
            let (st, std, sq, sqd) = venue_tape_sums(m.tapes, venue, m.tapes.len() as int);
            &&& t as int == capped(st)
            &&& td as int == capped(std)
            &&& q as int == capped(sq)
            &&& qd as int == capped(sqd)
        }),
{
    lemma_tape_totals_sum(m.tapes, venue, m.tapes.len() as int);
}

} // verus!
