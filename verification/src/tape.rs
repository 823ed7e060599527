//! The view plane's trade and quote tapes: bounded rings that keep the newest entries,
//! with a per-second admission cap, and the newest-first merge of the two.

use vstd::prelude::*;
use std::collections::VecDeque;

use crate::config::opt_view;
use crate::text::str_eq;

verus! {

/// One row of the live tape, as the view API serves it.
#[derive(Debug, PartialEq, Eq)]
pub enum TapeEntry {
    Trade {
        venue: String,
        instrument: u32,
        symbol: Option<String>,
        price: String,
        quantity: String,
        notional: Option<String>,
        aggressor: String,
        trade_id: Option<String>,
        exchange_ts_ns: Option<i64>,
        receive_ts_ns: i64,
    },
    Quote {
        venue: String,
        instrument: u32,
        symbol: Option<String>,
        bid_price: String,
        bid_quantity: Option<String>,
        ask_price: String,
        ask_quantity: Option<String>,
        exchange_ts_ns: Option<i64>,
        receive_ts_ns: i64,
    },
}

/// When the daemon received the event behind an entry.
pub open spec fn receive_ts(e: TapeEntry) -> i64 {
    match e {
        TapeEntry::Trade { receive_ts_ns, .. } => receive_ts_ns,
        TapeEntry::Quote { receive_ts_ns, .. } => receive_ts_ns,
    }
}

/// The receive timestamp of an entry.
pub fn tape_receive_ts(entry: &TapeEntry) -> (ts: i64)
    ensures
        ts == receive_ts(*entry),
{
    match entry {
        TapeEntry::Trade { receive_ts_ns, .. } => *receive_ts_ns,
        TapeEntry::Quote { receive_ts_ns, .. } => *receive_ts_ns,
    }
}

fn clone_opt(o: &Option<String>) -> (r: Option<String>)
    ensures
        r == *o,
{
    match o {
        Some(s) => Some(s.clone()),
        None => None,
    }
}

impl Clone for TapeEntry {
    fn clone(&self) -> (r: Self)
        ensures
            r == *self,
    {
        match self {
            TapeEntry::Trade {
                venue,
                instrument,
                symbol,
                price,
                quantity,
                notional,
                aggressor,
                trade_id,
                exchange_ts_ns,
                receive_ts_ns,
            } => TapeEntry::Trade {
                venue: venue.clone(),
                instrument: *instrument,
                symbol: clone_opt(symbol),
                price: price.clone(),
                quantity: quantity.clone(),
                notional: clone_opt(notional),
                aggressor: aggressor.clone(),
                trade_id: clone_opt(trade_id),
                exchange_ts_ns: *exchange_ts_ns,
                receive_ts_ns: *receive_ts_ns,
            },
            TapeEntry::Quote {
                venue,
                instrument,
                symbol,
                bid_price,
                bid_quantity,
                ask_price,
                ask_quantity,
                exchange_ts_ns,
                receive_ts_ns,
            } => TapeEntry::Quote {
                venue: venue.clone(),
                instrument: *instrument,
                symbol: clone_opt(symbol),
                bid_price: bid_price.clone(),
                bid_quantity: clone_opt(bid_quantity),
                ask_price: ask_price.clone(),
                ask_quantity: clone_opt(ask_quantity),
                exchange_ts_ns: *exchange_ts_ns,
                receive_ts_ns: *receive_ts_ns,
            },
        }
    }
}

/// A tape row with its text as character sequences.
pub enum EntryView {
    Trade {
        venue: Seq<char>,
        instrument: u32,
        symbol: Option<Seq<char>>,
        price: Seq<char>,
        quantity: Seq<char>,
        notional: Option<Seq<char>>,
        aggressor: Seq<char>,
        trade_id: Option<Seq<char>>,
        exchange_ts_ns: Option<i64>,
        receive_ts_ns: i64,
    },
    Quote {
        venue: Seq<char>,
        instrument: u32,
        symbol: Option<Seq<char>>,
        bid_price: Seq<char>,
        bid_quantity: Option<Seq<char>>,
        ask_price: Seq<char>,
        ask_quantity: Option<Seq<char>>,
        exchange_ts_ns: Option<i64>,
        receive_ts_ns: i64,
    },
}

impl View for TapeEntry {
    type V = EntryView;

    open spec fn view(&self) -> EntryView {
        match *self {
            TapeEntry::Trade {
                venue,
                instrument,
                symbol,
                price,
                quantity,
                notional,
                aggressor,
                trade_id,
                exchange_ts_ns,
                receive_ts_ns,
            } => EntryView::Trade {
                venue: venue@,
                instrument,
                symbol: opt_view(symbol),
                price: price@,
                quantity: quantity@,
                notional: opt_view(notional),
                aggressor: aggressor@,
                trade_id: opt_view(trade_id),
                exchange_ts_ns,
                receive_ts_ns,
            },
            TapeEntry::Quote {
                venue,
                instrument,
                symbol,
                bid_price,
                bid_quantity,
                ask_price,
                ask_quantity,
                exchange_ts_ns,
                receive_ts_ns,
            } => EntryView::Quote {
                venue: venue@,
                instrument,
                symbol: opt_view(symbol),
                bid_price: bid_price@,
                bid_quantity: opt_view(bid_quantity),
                ask_price: ask_price@,
                ask_quantity: opt_view(ask_quantity),
                exchange_ts_ns,
                receive_ts_ns,
            },
        }
    }
}

/// The views of a sequence of tape rows.
pub open spec fn entry_views(s: Seq<TapeEntry>) -> Seq<EntryView> {
    s.map_values(|e: TapeEntry| e@)
}

/// What a tape ring holds and counts, as plain values.
#[verifier::ext_equal]
pub struct RingModel {
    pub entries: Seq<EntryView>,
    pub capacity: nat,
    pub max_per_sec: u32,
    pub window: (u64, u32),
    pub dropped: u64,
}

impl RingModel {
    /// Whether an entry pushed at `now` is admitted by the rate cap.
    pub open spec fn admits(self, now: u64) -> bool {
        let (start, count) = self.window;
        self.max_per_sec == 0 || (if window_over(start, now) { 0 } else { count as int }) < self.max_per_sec
    }

    /// The admission window after a push at `now`.
    pub open spec fn window_after(self, now: u64) -> (u64, u32) {
        let (start, count) = self.window;
        if self.max_per_sec == 0 {
            (start, count)
        } else {
            let (s, c) = if window_over(start, now) { (now, 0u32) } else { (start, count) };
            if c >= self.max_per_sec {
                (s, c)
            } else {
                (s, (c + 1) as u32)
            }
        }
    }

    /// The ring after pushing `e` at `now`: over the cap it is dropped, on a full ring
    /// the oldest entry is evicted.
    pub open spec fn pushed(self, e: EntryView, now: u64) -> RingModel {
        RingModel {
            entries: if !self.admits(now) {
                self.entries
            } else if self.entries.len() >= self.capacity {
                self.entries.drop_first().push(e)
            } else {
                self.entries.push(e)
            },
            capacity: self.capacity,
            max_per_sec: self.max_per_sec,
            window: self.window_after(now),
            dropped: if !self.admits(now) || self.entries.len() >= self.capacity {
                saturating_inc(self.dropped)
            } else {
                self.dropped
            },
        }
    }
}

/// An empty ring as `TapeRing::new` makes it.
pub open spec fn fresh_ring(capacity: usize, max_per_sec: u32, now: u64) -> RingModel {
    RingModel {
        entries: Seq::empty(),
        capacity: if capacity == 0 { 1 } else { capacity as nat },
        max_per_sec,
        window: (now, 0u32),
        dropped: 0,
    }
}

/// One second, in nanoseconds: the length of an admission window.
pub const WINDOW_NS: u64 = 1_000_000_000;

/// Whether a window opened at `start` is over at `now`.
pub open spec fn window_over(start: u64, now: u64) -> bool {
    now >= start && now - start >= WINDOW_NS
}

/// `d + 1`, stopping at `u64::MAX`.
pub open spec fn saturating_inc(d: u64) -> u64 {
    if d == u64::MAX {
        d
    } else {
        (d + 1) as u64
    }
}

/// The last `n` items of `s`, newest (last) first.
pub open spec fn newest_first<T>(s: Seq<T>, n: nat) -> Seq<T> {
    Seq::new(n, |k: int| s[s.len() - 1 - k])
}

/// A bounded tape ring: it keeps at most `capacity` entries, evicting the oldest, and
/// admits at most `max_per_sec` entries per one-second window (no cap when 0).
#[derive(Debug)]
pub struct TapeRing {
    entries: VecDeque<TapeEntry>,
    capacity: usize,
    window_start_ns: u64,
    window_count: u32,
    max_per_sec: u32,
    dropped: u64,
}

impl TapeRing {
    pub closed spec fn entries(&self) -> Seq<TapeEntry> {
        self.entries@
    }

    pub closed spec fn spec_capacity(&self) -> nat {
        self.capacity as nat
    }

    pub closed spec fn spec_max_per_sec(&self) -> u32 {
        self.max_per_sec
    }

    /// The open admission window: when it started and how many entries it admitted.
    pub closed spec fn window(&self) -> (u64, u32) {
        (self.window_start_ns, self.window_count)
    }

    pub closed spec fn spec_dropped(&self) -> u64 {
        self.dropped
    }

    /// The ring never holds more than its capacity, which is at least one, and a capped
    /// window never admits more than the cap.
    pub closed spec fn wf(&self) -> bool {
        &&& self.capacity >= 1
        &&& self.entries@.len() <= self.capacity
        &&& self.max_per_sec > 0 ==> self.window_count <= self.max_per_sec
    }

    /// What the ring holds and counts.
    pub open spec fn model(&self) -> RingModel {
        RingModel {
            entries: entry_views(self.entries()),
            capacity: self.spec_capacity(),
            max_per_sec: self.spec_max_per_sec(),
            window: self.window(),
            dropped: self.spec_dropped(),
        }
    }

    /// Whether an entry pushed at `now` is admitted by the rate cap.
    pub open spec fn admits(&self, now: u64) -> bool {
        let (start, count) = self.window();
        self.spec_max_per_sec() == 0 || (if window_over(start, now) { 0 } else { count as int })
            < self.spec_max_per_sec()
    }

    /// The admission window after a push at `now`.
    pub open spec fn window_after(&self, now: u64) -> (u64, u32) {
        let (start, count) = self.window();
        if self.spec_max_per_sec() == 0 {
            (start, count)
        } else {
            let (s, c) = if window_over(start, now) { (now, 0u32) } else { (start, count) };
            if c >= self.spec_max_per_sec() {
                (s, c)
            } else {
                (s, (c + 1) as u32)
            }
        }
    }

    /// An empty ring; a capacity of 0 is raised to 1. `now_ns` opens the first window.
    pub fn new(capacity: usize, max_per_sec: u32, now_ns: u64) -> (r: Self)
        ensures
            r.wf(),
            r.entries() == Seq::<TapeEntry>::empty(),
            r.spec_capacity() == (if capacity == 0 { 1 } else { capacity as nat }),
            r.spec_max_per_sec() == max_per_sec,
            r.window() == (now_ns, 0u32),
            r.spec_dropped() == 0,
            r.model() == fresh_ring(capacity, max_per_sec, now_ns),
    {
        let r = TapeRing {
            entries: VecDeque::new(),
            capacity: if capacity == 0 { 1 } else { capacity },
            window_start_ns: now_ns,
            window_count: 0,
            max_per_sec,
            dropped: 0,
        };
        assert(entry_views(r.entries@) =~= Seq::<EntryView>::empty());
        r
    }

    /// Pushes an entry received at `now_ns` (a monotonic clock reading). An entry over the
    /// rate cap is dropped; one that finds the ring full evicts the oldest.
    pub fn push(&mut self, entry: TapeEntry, now_ns: u64)
        requires
            old(self).wf(),
        ensures
            final(self).wf(),
            final(self).model() == old(self).model().pushed(entry@, now_ns),
            final(self).spec_capacity() == old(self).spec_capacity(),
            final(self).spec_max_per_sec() == old(self).spec_max_per_sec(),
            final(self).window() == old(self).window_after(now_ns),
            !old(self).admits(now_ns) ==> {
                &&& final(self).entries() == old(self).entries()
                &&& final(self).spec_dropped() == saturating_inc(old(self).spec_dropped())
            },
            old(self).admits(now_ns) && old(self).entries().len() >= old(self).spec_capacity() ==> {
                &&& final(self).entries() == old(self).entries().drop_first().push(entry)
                &&& final(self).spec_dropped() == saturating_inc(old(self).spec_dropped())
            },
            old(self).admits(now_ns) && old(self).entries().len() < old(self).spec_capacity() ==> {
                &&& final(self).entries() == old(self).entries().push(entry)
                &&& final(self).spec_dropped() == old(self).spec_dropped()
            },
    {
        if self.max_per_sec > 0 {
            if now_ns >= self.window_start_ns && now_ns - self.window_start_ns >= WINDOW_NS {
                self.window_start_ns = now_ns;
                self.window_count = 0;
            }
            if self.window_count >= self.max_per_sec {
                self.dropped = self.dropped.saturating_add(1);
                return;
            }
            self.window_count = self.window_count + 1;
        }
        let ghost before = self.entries@;
        if self.entries.len() >= self.capacity {
            let _ = self.entries.pop_front();
            self.dropped = self.dropped.saturating_add(1);
        }
        let ghost e = entry@;
        self.entries.push_back(entry);
        proof {
            if before.len() >= self.capacity {
                assert(entry_views(self.entries@) =~= entry_views(before).drop_first().push(e));
            } else {
                assert(entry_views(self.entries@) =~= entry_views(before).push(e));
            }
        }
    }

    /// The newest `limit` entries (all of them when fewer), newest first.
    pub fn snapshot(&self, limit: usize) -> (r: Vec<TapeEntry>)
        ensures
            r@ == newest_first(
                self.entries(),
                if limit < self.entries().len() { limit as nat } else { self.entries().len() },
            ),
    {
        let len = self.entries.len();
        let n = if limit < len { limit } else { len };
        let mut out: Vec<TapeEntry> = Vec::new();
        let mut k: usize = 0;
        while k < n
            invariant
                n <= len,
                len == self.entries@.len(),
                k <= n,
                out@ == newest_first(self.entries@, k as nat),
            decreases n - k,
        {
            let e = self.entries[len - 1 - k].clone();
            out.push(e);
            k += 1;
            assert(out@ =~= newest_first(self.entries@, k as nat));
        }
        out
    }

    /// The entries held, oldest first.
    pub fn oldest_first(&self) -> (r: Vec<TapeEntry>)
        ensures
            r@ == self.entries(),
    {
        let mut out: Vec<TapeEntry> = Vec::new();
        let mut k: usize = 0;
        while k < self.entries.len()
            invariant
                k <= self.entries@.len(),
                out@ == self.entries@.take(k as int),
            decreases self.entries@.len() - k,
        {
            out.push(self.entries[k].clone());
            k += 1;
            assert(out@ =~= self.entries@.take(k as int));
        }
        assert(self.entries@.take(self.entries@.len() as int) =~= self.entries@);
        out
    }

    /// The number of entries held.
    pub fn len(&self) -> (n: u64)
        ensures
            n == self.entries().len(),
    {
        self.entries.len() as u64
    }

    /// How many entries were dropped, by the rate cap or by eviction.
    pub fn dropped_count(&self) -> (n: u64)
        ensures
            n == self.spec_dropped(),
    {
        self.dropped
    }
}

/// Merges two newest-first lists into one of at most `limit` entries, taking the newer
/// head each time (`a`'s on a tie).
pub open spec fn merge_spec(a: Seq<TapeEntry>, b: Seq<TapeEntry>, limit: nat) -> Seq<TapeEntry>
    decreases limit,
{
    if limit == 0 || (a.len() == 0 && b.len() == 0) {
        seq![]
    } else if b.len() == 0 || (a.len() > 0 && receive_ts(a[0]) >= receive_ts(b[0])) {
        seq![a[0]] + merge_spec(a.drop_first(), b, (limit - 1) as nat)
    } else {
        seq![b[0]] + merge_spec(a, b.drop_first(), (limit - 1) as nat)
    }
}

/// When the daemon received the event behind a row.
pub open spec fn view_ts(e: EntryView) -> i64 {
    match e {
        EntryView::Trade { receive_ts_ns, .. } => receive_ts_ns,
        EntryView::Quote { receive_ts_ns, .. } => receive_ts_ns,
    }
}

/// `merge_spec` on rows.
pub open spec fn merge_views(a: Seq<EntryView>, b: Seq<EntryView>, limit: nat) -> Seq<EntryView>
    decreases limit,
{
    if limit == 0 || (a.len() == 0 && b.len() == 0) {
        seq![]
    } else if b.len() == 0 || (a.len() > 0 && view_ts(a[0]) >= view_ts(b[0])) {
        seq![a[0]] + merge_views(a.drop_first(), b, (limit - 1) as nat)
    } else {
        seq![b[0]] + merge_views(a, b.drop_first(), (limit - 1) as nat)
    }
}

pub proof fn lemma_merge_views(a: Seq<TapeEntry>, b: Seq<TapeEntry>, limit: nat)
    ensures
        entry_views(merge_spec(a, b, limit)) == merge_views(entry_views(a), entry_views(b), limit),
    decreases limit,
{
    let (va, vb) = (entry_views(a), entry_views(b));
    if limit == 0 || (a.len() == 0 && b.len() == 0) {
        assert(entry_views(merge_spec(a, b, limit)) =~= merge_views(va, vb, limit));
    } else if b.len() == 0 || (a.len() > 0 && receive_ts(a[0]) >= receive_ts(b[0])) {
        lemma_merge_views(a.drop_first(), b, (limit - 1) as nat);
        assert(entry_views(a.drop_first()) =~= va.drop_first());
        assert(entry_views(merge_spec(a, b, limit)) =~= merge_views(va, vb, limit));
    } else {
        lemma_merge_views(a, b.drop_first(), (limit - 1) as nat);
        assert(entry_views(b.drop_first()) =~= vb.drop_first());
        assert(entry_views(merge_spec(a, b, limit)) =~= merge_views(va, vb, limit));
    }
}

pub proof fn lemma_newest_first_views(s: Seq<TapeEntry>, n: nat)
    requires
        n <= s.len(),
    ensures
        entry_views(newest_first(s, n)) == newest_first(entry_views(s), n),
{
    assert(entry_views(newest_first(s, n)) =~= newest_first(entry_views(s), n));
}

/// The newest `limit` entries of two newest-first lists, newest first.
pub fn merge_newest(a: Vec<TapeEntry>, b: Vec<TapeEntry>, limit: usize) -> (out: Vec<TapeEntry>)
    ensures
        out@ == merge_spec(a@, b@, limit as nat),
{
    let mut i: usize = 0;
    let mut j: usize = 0;
    let mut out: Vec<TapeEntry> = Vec::new();
    assert(a@.skip(0) =~= a@);
    assert(b@.skip(0) =~= b@);
    assert(out@ + merge_spec(a@, b@, limit as nat) =~= merge_spec(a@, b@, limit as nat));
    while out.len() < limit && (i < a.len() || j < b.len())
        invariant
            i <= a.len(),
            j <= b.len(),
            out.len() <= limit,
            out@ + merge_spec(a@.skip(i as int), b@.skip(j as int), (limit - out.len()) as nat)
                == merge_spec(a@, b@, limit as nat),
        decreases a.len() - i + b.len() - j,
    {
        let ghost rest_a = a@.skip(i as int);
        let ghost rest_b = b@.skip(j as int);
        let ghost m = (limit - out.len()) as nat;
        let take_a = if i < a.len() && j < b.len() {
            tape_receive_ts(&a[i]) >= tape_receive_ts(&b[j])
        } else {
            i < a.len()
        };
        if take_a {
            assert(rest_a[0] == a@[i as int]);
            assert(rest_a.drop_first() =~= a@.skip(i + 1));
            out.push(a[i].clone());
            i += 1;
        } else {
            assert(rest_b[0] == b@[j as int]);
            assert(rest_b.drop_first() =~= b@.skip(j + 1));
            out.push(b[j].clone());
            j += 1;
        }
        assert(out@ + merge_spec(a@.skip(i as int), b@.skip(j as int), (limit - out.len()) as nat)
            =~= merge_spec(a@, b@, limit as nat));
    }
    proof {
        let m = (limit - out.len()) as nat;
        assert(merge_spec(a@.skip(i as int), b@.skip(j as int), m) =~= Seq::<TapeEntry>::empty());
    }
    assert(out@ =~= merge_spec(a@, b@, limit as nat));
    out
}

/// The tapes of one instrument: trades and quotes in separate rings, so that a flood of
/// one kind cannot evict the other.
#[derive(Debug)]
pub struct InstrumentTape {
    pub trades: TapeRing,
    pub quotes: TapeRing,
}

/// The tape a kind filter selects: trades, quotes, or both merged.
pub open spec fn kind_trades(kind: Option<Seq<char>>) -> bool {
    kind == Some("trade"@) || kind == Some("trades"@)
}

pub open spec fn kind_quotes(kind: Option<Seq<char>>) -> bool {
    kind == Some("quote"@) || kind == Some("quotes"@)
}

impl InstrumentTape {
    pub open spec fn wf(&self) -> bool {
        self.trades.wf() && self.quotes.wf()
    }

    /// Both rings empty, with the same capacity and rate cap.
    pub fn new(capacity: usize, max_per_sec: u32, now_ns: u64) -> (t: Self)
        ensures
            t.wf(),
            t.trades.entries() == Seq::<TapeEntry>::empty(),
            t.quotes.entries() == Seq::<TapeEntry>::empty(),
            t.trades.spec_capacity() == (if capacity == 0 { 1 } else { capacity as nat }),
            t.quotes.spec_capacity() == (if capacity == 0 { 1 } else { capacity as nat }),
            t.trades.spec_max_per_sec() == max_per_sec,
            t.quotes.spec_max_per_sec() == max_per_sec,
            t.trades.spec_dropped() == 0,
            t.quotes.spec_dropped() == 0,
            t.trades.model() == fresh_ring(capacity, max_per_sec, now_ns),
            t.quotes.model() == fresh_ring(capacity, max_per_sec, now_ns),
    {
        InstrumentTape {
            trades: TapeRing::new(capacity, max_per_sec, now_ns),
            quotes: TapeRing::new(capacity, max_per_sec, now_ns),
        }
    }

    /// Pushes a trade; returns how many entries this push dropped (0 or 1).
    pub fn push_trade(&mut self, entry: TapeEntry, now_ns: u64) -> (dropped: u64)
        requires
            old(self).wf(),
        ensures
            final(self).wf(),
            final(self).trades.model() == old(self).trades.model().pushed(entry@, now_ns),
            final(self).quotes == old(self).quotes,
            dropped == final(self).trades.spec_dropped() - old(self).trades.spec_dropped(),
            dropped <= 1,
            ({
                let o = old(self).trades;
                let n = final(self).trades;
                &&& n.spec_capacity() == o.spec_capacity()
                &&& n.spec_max_per_sec() == o.spec_max_per_sec()
                &&& n.window() == o.window_after(now_ns)
                &&& !o.admits(now_ns) ==> n.entries() == o.entries()
                &&& o.admits(now_ns) && o.entries().len() >= o.spec_capacity() ==> n.entries() == o.entries().drop_first().push(entry)
                &&& o.admits(now_ns) && o.entries().len() < o.spec_capacity() ==> n.entries() == o.entries().push(entry)
            }),
    {
        let before = self.trades.dropped_count();
        self.trades.push(entry, now_ns);
        self.trades.dropped_count() - before
    }

    /// Pushes a quote; returns how many entries this push dropped (0 or 1).
    pub fn push_quote(&mut self, entry: TapeEntry, now_ns: u64) -> (dropped: u64)
        requires
            old(self).wf(),
        ensures
            final(self).wf(),
            final(self).quotes.model() == old(self).quotes.model().pushed(entry@, now_ns),
            final(self).trades == old(self).trades,
            dropped == final(self).quotes.spec_dropped() - old(self).quotes.spec_dropped(),
            dropped <= 1,
            ({
                let o = old(self).quotes;
                let n = final(self).quotes;
                &&& n.spec_capacity() == o.spec_capacity()
                &&& n.spec_max_per_sec() == o.spec_max_per_sec()
                &&& n.window() == o.window_after(now_ns)
                &&& !o.admits(now_ns) ==> n.entries() == o.entries()
                &&& o.admits(now_ns) && o.entries().len() >= o.spec_capacity() ==> n.entries() == o.entries().drop_first().push(entry)
                &&& o.admits(now_ns) && o.entries().len() < o.spec_capacity() ==> n.entries() == o.entries().push(entry)
            }),
    {
        let before = self.quotes.dropped_count();
        self.quotes.push(entry, now_ns);
        self.quotes.dropped_count() - before
    }

    /// Newest-first entries, at least one asked for: `trade`/`trades` and `quote`/`quotes`
    /// select a ring, anything else merges both.
    pub fn snapshot(&self, limit: usize, kind: Option<&str>) -> (r: Vec<TapeEntry>)
        ensures
            ({
                let l: nat = if limit < 1 { 1 } else { limit as nat };
                let k = crate::route::opt_str_view(kind);
                let t = newest_first(self.trades.entries(), if l < self.trades.entries().len() { l } else { self.trades.entries().len() });
                let q = newest_first(self.quotes.entries(), if l < self.quotes.entries().len() { l } else { self.quotes.entries().len() });
                r@ == (if kind_trades(k) { t } else if kind_quotes(k) { q } else { merge_spec(t, q, l) })
            }),
    {
        let limit = if limit < 1 { 1 } else { limit };
        let is_trades = match kind {
            Some(k) => str_eq(k, "trade") || str_eq(k, "trades"),
            None => false,
        };
        let is_quotes = match kind {
            Some(k) => str_eq(k, "quote") || str_eq(k, "quotes"),
            None => false,
        };
        if is_trades {
            self.trades.snapshot(limit)
        } else if is_quotes {
            self.quotes.snapshot(limit)
        } else {
            merge_newest(self.trades.snapshot(limit), self.quotes.snapshot(limit), limit)
        }
    }

    /// Entries held and dropped on the trade ring.
    pub fn trade_stats(&self) -> (r: (u64, u64))
        ensures
            r == (self.trades.entries().len() as u64, self.trades.spec_dropped()),
    {
        (self.trades.len(), self.trades.dropped_count())
    }

    /// Entries held and dropped on the quote ring.
    pub fn quote_stats(&self) -> (r: (u64, u64))
        ensures
            r == (self.quotes.entries().len() as u64, self.quotes.spec_dropped()),
    {
        (self.quotes.len(), self.quotes.dropped_count())
    }
}

/// Entries in newest-first order: receive timestamps never increase.
pub open spec fn newest_first_ordered(s: Seq<TapeEntry>) -> bool {
    forall|i: int, j: int| 0 <= i < j < s.len() ==> receive_ts(s[i]) >= receive_ts(s[j])
}

/// No entry of `s` was received after `bound`.
pub open spec fn all_at_most(s: Seq<TapeEntry>, bound: i64) -> bool {
    forall|i: int| 0 <= i < s.len() ==> receive_ts(#[trigger] s[i]) <= bound
}

/// A merge takes a run from the front of each list and nothing else: some first `i`
/// entries of `a` and first `j` entries of `b`, `i + j` in all.
pub proof fn lemma_merge_takes_fronts(a: Seq<TapeEntry>, b: Seq<TapeEntry>, limit: nat)
    ensures
        exists|i: int, j: int|
            #![trigger a.take(i), b.take(j)]
            {
            &&& 0 <= i <= a.len()
            &&& 0 <= j <= b.len()
            &&& i + j == merge_spec(a, b, limit).len()
            &&& merge_spec(a, b, limit).to_multiset() == (a.take(i) + b.take(j)).to_multiset()
        },
    decreases limit,
{
    broadcast use vstd::seq_lib::group_to_multiset_ensures;
    broadcast use vstd::seq_lib::lemma_multiset_commutative;
    broadcast use vstd::multiset::group_multiset_axioms;

    let m = merge_spec(a, b, limit);
    if limit == 0 || (a.len() == 0 && b.len() == 0) {
        assert(a.take(0) + b.take(0) =~= m);
        assert(m.to_multiset() == (a.take(0) + b.take(0)).to_multiset());
    } else if b.len() == 0 || (a.len() > 0 && receive_ts(a[0]) >= receive_ts(b[0])) {
        let a2 = a.drop_first();
        let rest = merge_spec(a2, b, (limit - 1) as nat);
        lemma_merge_takes_fronts(a2, b, (limit - 1) as nat);
        let (i, j) = choose|i: int, j: int|
            #![trigger a2.take(i), b.take(j)]
            {
            &&& 0 <= i <= a2.len()
            &&& 0 <= j <= b.len()
            &&& i + j == rest.len()
            &&& rest.to_multiset() == (a2.take(i) + b.take(j)).to_multiset()
        };
        assert(m == seq![a[0]] + rest);
        assert(a.take(i + 1) =~= seq![a[0]] + a2.take(i));
        assert(a.take(i + 1) + b.take(j) =~= seq![a[0]] + (a2.take(i) + b.take(j)));
        assert(m.to_multiset() == (a.take(i + 1) + b.take(j)).to_multiset());
    } else {
        let b2 = b.drop_first();
        let rest = merge_spec(a, b2, (limit - 1) as nat);
        lemma_merge_takes_fronts(a, b2, (limit - 1) as nat);
        let (i, j) = choose|i: int, j: int|
            #![trigger a.take(i), b2.take(j)]
            {
            &&& 0 <= i <= a.len()
            &&& 0 <= j <= b2.len()
            &&& i + j == rest.len()
            &&& rest.to_multiset() == (a.take(i) + b2.take(j)).to_multiset()
        };
        assert(m == seq![b[0]] + rest);
        assert(b.take(j + 1) =~= seq![b[0]] + b2.take(j));
        assert((seq![b[0]] + rest).to_multiset() == seq![b[0]].to_multiset().add(rest.to_multiset()));
        assert((a.take(i) + b.take(j + 1)).to_multiset() == a.take(i).to_multiset().add(
            (seq![b[0]] + b2.take(j)).to_multiset(),
        ));
        assert((seq![b[0]] + b2.take(j)).to_multiset() == seq![b[0]].to_multiset().add(b2.take(j).to_multiset()));
        assert((a.take(i) + b2.take(j)).to_multiset() == a.take(i).to_multiset().add(b2.take(j).to_multiset()));
        assert(m.to_multiset() =~= (a.take(i) + b.take(j + 1)).to_multiset());
    }
}

/// A merge holds as many entries as the limit allows and the two lists have.
pub proof fn lemma_merge_len(a: Seq<TapeEntry>, b: Seq<TapeEntry>, limit: nat)
    ensures
        merge_spec(a, b, limit).len() == (if limit < a.len() + b.len() { limit } else { a.len() + b.len() }),
    decreases limit,
{
    if limit == 0 || (a.len() == 0 && b.len() == 0) {
    } else if b.len() == 0 || (a.len() > 0 && receive_ts(a[0]) >= receive_ts(b[0])) {
        lemma_merge_len(a.drop_first(), b, (limit - 1) as nat);
    } else {
        lemma_merge_len(a, b.drop_first(), (limit - 1) as nat);
    }
}

proof fn lemma_merge_bounded(a: Seq<TapeEntry>, b: Seq<TapeEntry>, limit: nat, bound: i64)
    requires
        all_at_most(a, bound),
        all_at_most(b, bound),
    ensures
        all_at_most(merge_spec(a, b, limit), bound),
    decreases limit,
{
    if limit == 0 || (a.len() == 0 && b.len() == 0) {
    } else if b.len() == 0 || (a.len() > 0 && receive_ts(a[0]) >= receive_ts(b[0])) {
        let rest = merge_spec(a.drop_first(), b, (limit - 1) as nat);
        lemma_merge_bounded(a.drop_first(), b, (limit - 1) as nat, bound);
        assert(merge_spec(a, b, limit) == seq![a[0]] + rest);
        assert forall|i: int| 0 <= i < merge_spec(a, b, limit).len() implies receive_ts(
            #[trigger] merge_spec(a, b, limit)[i],
        ) <= bound by {
            if i > 0 {
                assert(merge_spec(a, b, limit)[i] == rest[i - 1]);
            }
        }
    } else {
        let rest = merge_spec(a, b.drop_first(), (limit - 1) as nat);
        lemma_merge_bounded(a, b.drop_first(), (limit - 1) as nat, bound);
        assert(merge_spec(a, b, limit) == seq![b[0]] + rest);
        assert forall|i: int| 0 <= i < merge_spec(a, b, limit).len() implies receive_ts(
            #[trigger] merge_spec(a, b, limit)[i],
        ) <= bound by {
            if i > 0 {
                assert(merge_spec(a, b, limit)[i] == rest[i - 1]);
            }
        }
    }
}

/// Merging two newest-first lists gives a newest-first list.
pub proof fn lemma_merge_keeps_newest_first(a: Seq<TapeEntry>, b: Seq<TapeEntry>, limit: nat)
    requires
        newest_first_ordered(a),
        newest_first_ordered(b),
    ensures
        newest_first_ordered(merge_spec(a, b, limit)),
    decreases limit,
{
    if limit == 0 || (a.len() == 0 && b.len() == 0) {
    } else {
        let take_a = b.len() == 0 || (a.len() > 0 && receive_ts(a[0]) >= receive_ts(b[0]));
        let head = if take_a { a[0] } else { b[0] };
        let a2 = if take_a { a.drop_first() } else { a };
        let b2 = if take_a { b } else { b.drop_first() };
        let rest = merge_spec(a2, b2, (limit - 1) as nat);
        assert(merge_spec(a, b, limit) == seq![head] + rest);
        assert(newest_first_ordered(a2));
        assert(newest_first_ordered(b2));
        lemma_merge_keeps_newest_first(a2, b2, (limit - 1) as nat);
        assert(all_at_most(a2, receive_ts(head))) by {
            assert forall|i: int| 0 <= i < a2.len() implies receive_ts(#[trigger] a2[i]) <= receive_ts(head) by {
                if take_a {
                    assert(a2[i] == a[i + 1]);
                } else {
                    assert(receive_ts(a[0]) < receive_ts(b[0]));
                }
            }
        }
        assert(all_at_most(b2, receive_ts(head))) by {
            assert forall|i: int| 0 <= i < b2.len() implies receive_ts(#[trigger] b2[i]) <= receive_ts(head) by {
                if !take_a {
                    assert(b2[i] == b[i + 1]);
                } else {
                    assert(receive_ts(a[0]) >= receive_ts(b[0]));
                }
            }
        }
        lemma_merge_bounded(a2, b2, (limit - 1) as nat, receive_ts(head));
        let m = merge_spec(a, b, limit);
        assert forall|i: int, j: int| 0 <= i < j < m.len() implies receive_ts(m[i]) >= receive_ts(m[j]) by {
            assert(m[j] == rest[j - 1]);
            if i > 0 {
                assert(m[i] == rest[i - 1]);
            }
        }
    }
}

/// A ring never holds more entries than its capacity.
pub proof fn lemma_ring_within_capacity(r: TapeRing)
    requires
        r.wf(),
    ensures
        r.entries().len() <= r.spec_capacity(),
        r.spec_capacity() >= 1,
        r.spec_capacity() <= usize::MAX,
{
}

/// A capped ring never admits more than its cap within one window.
pub proof fn lemma_window_within_cap(r: TapeRing)
    requires
        r.wf(),
        r.spec_max_per_sec() > 0,
    ensures
        r.window().1 <= r.spec_max_per_sec(),
{
}

/// Entries in arrival order: receive timestamps never decrease.
pub open spec fn oldest_first_ordered(s: Seq<TapeEntry>) -> bool {
    forall|i: int, j: int| 0 <= i < j < s.len() ==> receive_ts(s[i]) <= receive_ts(s[j])
}

/// A snapshot of entries held in arrival order comes out newest first.
pub proof fn lemma_snapshot_newest_first(s: Seq<TapeEntry>, n: nat)
    requires
        oldest_first_ordered(s),
        n <= s.len(),
    ensures
        newest_first_ordered(newest_first(s, n)),
{
    let r = newest_first(s, n);
    assert forall|i: int, j: int| 0 <= i < j < r.len() implies receive_ts(r[i]) >= receive_ts(r[j]) by {
        assert(r[i] == s[s.len() - 1 - i]);
        assert(r[j] == s[s.len() - 1 - j]);
    }
}

} // verus!
