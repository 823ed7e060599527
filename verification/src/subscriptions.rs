//! How a venue's configured symbols and channels expand into the concrete
//! subscriptions a session planner receives: every symbol in configured order, and for
//! each every channel in configured order.

use vstd::prelude::*;

use crate::config::ConfigError;
use crate::text::{debug_quoted, debug_text, str_eq, trim, trim_str};
use crate::venue_config::{canonical_channel_name, canonical_channel_spec, VenueConfig};

verus! {

broadcast use vstd::string::group_string_axioms;

/// A market-data channel a session can subscribe to.
#[derive(Debug, Clone, Copy, PartialEq, Eq, Structural)]
pub enum Channel {
    Trades,
    Quote,
    /// Full-depth order book at the venue's own cadence.
    L2Book,
    Funding,
    OpenInterest,
    Liquidations,
    MarkPrice,
    IndexPrice,
    /// One-minute candles.
    Candles,
}

/// What a subscription asks the session to emit besides its channel's events.
#[derive(Debug, Clone, Copy, PartialEq, Eq, Structural)]
pub struct DeliveryOptions {
    pub emit_book_snapshots: bool,
    pub emit_book_deltas: bool,
    pub emit_bbo: bool,
}

/// One instrument on one channel.
#[derive(Debug, Clone, Copy, PartialEq, Eq, Structural)]
pub struct ConcreteSubscription {
    pub instrument: u32,
    pub channel: Channel,
    pub delivery: DeliveryOptions,
}

/// The channel a canonical channel name denotes.
pub open spec fn channel_of(canonical: Seq<char>) -> Channel {
    if canonical == "trades"@ {
        Channel::Trades
    } else if canonical == "quote"@ {
        Channel::Quote
    } else if canonical == "l2"@ {
        Channel::L2Book
    } else if canonical == "funding"@ {
        Channel::Funding
    } else if canonical == "open_interest"@ {
        Channel::OpenInterest
    } else if canonical == "liquidations"@ {
        Channel::Liquidations
    } else if canonical == "mark"@ {
        Channel::MarkPrice
    } else if canonical == "index"@ {
        Channel::IndexPrice
    } else {
        Channel::Candles
    }
}

/// Quotes also emit best bid/offer; books emit snapshots, deltas and best bid/offer.
pub open spec fn delivery_for(ch: Channel) -> DeliveryOptions {
    match ch {
        Channel::Quote => DeliveryOptions { emit_book_snapshots: false, emit_book_deltas: false, emit_bbo: true },
        Channel::L2Book => DeliveryOptions { emit_book_snapshots: true, emit_book_deltas: true, emit_bbo: true },
        _ => DeliveryOptions { emit_book_snapshots: false, emit_book_deltas: false, emit_bbo: false },
    }
}

/// The channel and delivery a configured channel name asks for (surrounding whitespace
/// and ASCII case ignored, aliases allowed).
pub open spec fn configured_channel_spec(name: Seq<char>) -> Result<(Channel, DeliveryOptions), Seq<char>> {
    match canonical_channel_spec(trim(name)) {
        Some(c) => Ok((channel_of(c), delivery_for(channel_of(c)))),
        None => Err("unknown configured channel "@ + debug_text(name)),
    }
}

pub open spec fn channel_result_view(r: Result<(Channel, DeliveryOptions), ConfigError>) -> Result<(Channel, DeliveryOptions), Seq<char>> {
    match r {
        Ok(x) => Ok(x),
        Err(ConfigError::Validation(m)) => Err(m@),
        Err(_) => Err(seq![]),
    }
}

fn delivery(ch: Channel) -> (d: DeliveryOptions)
    ensures
        d == delivery_for(ch),
{
    match ch {
        Channel::Quote => DeliveryOptions { emit_book_snapshots: false, emit_book_deltas: false, emit_bbo: true },
        Channel::L2Book => DeliveryOptions { emit_book_snapshots: true, emit_book_deltas: true, emit_bbo: true },
        _ => DeliveryOptions { emit_book_snapshots: false, emit_book_deltas: false, emit_bbo: false },
    }
}

pub fn configured_channel(name: &str) -> (r: Result<(Channel, DeliveryOptions), ConfigError>)
    ensures
        channel_result_view(r) == configured_channel_spec(name@),
        r is Err ==> (r matches Err(e) && e is Validation),
{
    let t = trim_str(name);
    match canonical_channel_name(t) {
        Some(c) => {
            let ch = if str_eq(c, "trades") {
                Channel::Trades
            } else if str_eq(c, "quote") {
                Channel::Quote
            } else if str_eq(c, "l2") {
                Channel::L2Book
            } else if str_eq(c, "funding") {
                Channel::Funding
            } else if str_eq(c, "open_interest") {
                Channel::OpenInterest
            } else if str_eq(c, "liquidations") {
                Channel::Liquidations
            } else if str_eq(c, "mark") {
                Channel::MarkPrice
            } else if str_eq(c, "index") {
                Channel::IndexPrice
            } else {
                Channel::Candles
            };
            Ok((ch, delivery(ch)))
        },
        None => {
            let mut m = String::from_str("unknown configured channel ");
            let q = debug_quoted(name);
            m.append(q.as_str());
            Err(ConfigError::Validation(m))
        },
    }
}

/// The configured channels of `names[..n]`, or the first one that is unknown.
pub open spec fn channels_spec(names: Seq<String>, n: nat) -> Result<Seq<(Channel, DeliveryOptions)>, Seq<char>>
    decreases n,
{
    if n == 0 || n > names.len() {
        Ok(seq![])
    } else {
        match channels_spec(names, (n - 1) as nat) {
            Err(m) => Err(m),
            Ok(prev) => match configured_channel_spec(names[n - 1]@) {
                Err(m) => Err(m),
                Ok(c) => Ok(prev.push(c)),
            },
        }
    }
}

/// The id of the first catalog instrument whose native symbol is `sym`.
pub open spec fn find_native(catalog: Seq<(u32, String)>, sym: Seq<char>) -> Option<u32>
    decreases catalog.len(),
{
    if catalog.len() == 0 {
        None
    } else if catalog[0].1@ == sym {
        Some(catalog[0].0)
    } else {
        find_native(catalog.drop_first(), sym)
    }
}

/// One instrument subscribed to each of `chans`, in order.
pub open spec fn per_instrument(instrument: u32, chans: Seq<(Channel, DeliveryOptions)>) -> Seq<ConcreteSubscription> {
    Seq::new(chans.len(), |k: int| ConcreteSubscription { instrument, channel: chans[k].0, delivery: chans[k].1 })
}

/// The subscriptions of `symbols[..n]`, or the error of the first symbol the catalog
/// lacks.
pub open spec fn symbols_spec(
    venue_id: Seq<char>,
    symbols: Seq<String>,
    catalog: Seq<(u32, String)>,
    chans: Seq<(Channel, DeliveryOptions)>,
    n: nat,
) -> Result<Seq<ConcreteSubscription>, Seq<char>>
    decreases n,
{
    if n == 0 || n > symbols.len() {
        Ok(seq![])
    } else {
        match symbols_spec(venue_id, symbols, catalog, chans, (n - 1) as nat) {
            Err(m) => Err(m),
            Ok(prev) => match find_native(catalog, symbols[n - 1]@) {
                None => Err("venue "@ + venue_id + ": configured symbol "@ + debug_text(symbols[n - 1]@)
                    + " missing from catalog"@),
                Some(id) => Ok(prev + per_instrument(id, chans)),
            },
        }
    }
}

/// The expansion of a venue against a catalog of (instrument id, native symbol).
pub open spec fn expansion_spec(v: VenueConfig, catalog: Seq<(u32, String)>) -> Result<Seq<ConcreteSubscription>, Seq<char>> {
    match channels_spec(v.channels@, v.channels@.len()) {
        Err(m) => Err(m),
        Ok(chans) => symbols_spec(v.id@, v.symbols@, catalog, chans, v.symbols@.len()),
    }
}

pub open spec fn expansion_view(r: Result<Vec<ConcreteSubscription>, ConfigError>) -> Result<Seq<ConcreteSubscription>, Seq<char>> {
    match r {
        Ok(items) => Ok(items@),
        Err(ConfigError::Validation(m)) => Err(m@),
        Err(_) => Err(seq![]),
    }
}

fn find_native_exec(catalog: &Vec<(u32, String)>, sym: &str) -> (r: Option<u32>)
    ensures
        r == find_native(catalog@, sym@),
{
    let mut i: usize = 0;
    assert(catalog@.skip(0) =~= catalog@);
    while i < catalog.len()
        invariant
            i <= catalog@.len(),
            find_native(catalog@, sym@) == find_native(catalog@.skip(i as int), sym@),
        decreases catalog.len() - i,
    {
        assert(catalog@.skip(i as int)[0] == catalog@[i as int]);
        if str_eq(catalog[i].1.as_str(), sym) {
            return Some(catalog[i].0);
        }
        assert(catalog@.skip(i as int).drop_first() =~= catalog@.skip(i + 1));
        i += 1;
    }
    None
}

/// Expands a validated venue into its concrete subscriptions: configured symbol order,
/// then configured channel order. A symbol missing from the catalog is an error, never a
/// fallback to an adapter default.
pub fn expand_concrete_subscriptions(venue: &VenueConfig, catalog: &Vec<(u32, String)>) -> (r: Result<Vec<ConcreteSubscription>, ConfigError>)
    ensures
        expansion_view(r) == expansion_spec(*venue, catalog@),
        r is Err ==> (r matches Err(e) && e is Validation),
{
    let mut chans: Vec<(Channel, DeliveryOptions)> = Vec::new();
    let mut c: usize = 0;
    while c < venue.channels.len()
        invariant
            c <= venue.channels@.len(),
            channels_spec(venue.channels@, c as nat) == Ok::<Seq<(Channel, DeliveryOptions)>, Seq<char>>(chans@),
        decreases venue.channels.len() - c,
    {
        match configured_channel(venue.channels[c].as_str()) {
            Ok(x) => chans.push(x),
            Err(e) => {
                proof {
                    lemma_channels_error_stays(venue.channels@, (c + 1) as nat, venue.channels@.len());
                }
                return Err(e);
            },
        }
        c += 1;
    }
    assert(channels_spec(venue.channels@, venue.channels@.len()) == Ok::<Seq<(Channel, DeliveryOptions)>, Seq<char>>(chans@));
    let mut items: Vec<ConcreteSubscription> = Vec::new();
    let mut s: usize = 0;
    while s < venue.symbols.len()
        invariant
            s <= venue.symbols@.len(),
            channels_spec(venue.channels@, venue.channels@.len()) == Ok::<Seq<(Channel, DeliveryOptions)>, Seq<char>>(chans@),
            symbols_spec(venue.id@, venue.symbols@, catalog@, chans@, s as nat) == Ok::<Seq<ConcreteSubscription>, Seq<char>>(items@),
        decreases venue.symbols.len() - s,
    {
        match find_native_exec(catalog, venue.symbols[s].as_str()) {
            None => {
                let mut m = String::from_str("venue ");
                m.append(venue.id.as_str());
                m.append(": configured symbol ");
                let q = debug_quoted(venue.symbols[s].as_str());
                m.append(q.as_str());
                m.append(" missing from catalog");
                proof {
                    lemma_symbols_error_stays(venue.id@, venue.symbols@, catalog@, chans@, (s + 1) as nat, venue.symbols@.len());
                }
                return Err(ConfigError::Validation(m));
            },
            Some(id) => {
                let ghost before = items@;
                let mut k: usize = 0;
                while k < chans.len()
                    invariant
                        k <= chans@.len(),
                        items@ == before + per_instrument(id, chans@).take(k as int),
                    decreases chans.len() - k,
                {
                    let (ch, d) = chans[k];
                    items.push(ConcreteSubscription { instrument: id, channel: ch, delivery: d });
                    k += 1;
                    assert(items@ =~= before + per_instrument(id, chans@).take(k as int));
                }
                assert(per_instrument(id, chans@).take(chans@.len() as int) =~= per_instrument(id, chans@));
            },
        }
        s += 1;
    }
    Ok(items)
}

proof fn lemma_channels_error_stays(names: Seq<String>, n: nat, m: nat)
    requires
        0 < n <= m <= names.len(),
        channels_spec(names, n) is Err,
    ensures
        channels_spec(names, m) == channels_spec(names, n),
    decreases m - n,
{
    if n < m {
        lemma_channels_error_stays(names, n, (m - 1) as nat);
    }
}

proof fn lemma_symbols_error_stays(
    venue_id: Seq<char>,
    symbols: Seq<String>,
    catalog: Seq<(u32, String)>,
    chans: Seq<(Channel, DeliveryOptions)>,
    n: nat,
    m: nat,
)
    requires
        0 < n <= m <= symbols.len(),
        symbols_spec(venue_id, symbols, catalog, chans, n) is Err,
    ensures
        symbols_spec(venue_id, symbols, catalog, chans, m) == symbols_spec(venue_id, symbols, catalog, chans, n),
    decreases m - n,
{
    if n < m {
        lemma_symbols_error_stays(venue_id, symbols, catalog, chans, n, (m - 1) as nat);
    }
}

/// The stub catalog of a venue's configured symbols: instrument ids count from 1 in
/// configured order.
pub fn stub_catalog(symbols: &Vec<String>) -> (r: Vec<(u32, String)>)
    requires
        symbols@.len() < u32::MAX,
    ensures
        r@.len() == symbols@.len(),
        forall|i: int| 0 <= i < r@.len() ==> r@[i].0 == i + 1 && r@[i].1@ == symbols@[i]@,
{
    let mut out: Vec<(u32, String)> = Vec::new();
    let mut i: usize = 0;
    while i < symbols.len()
        invariant
            i <= symbols@.len() < u32::MAX,
            out@.len() == i,
            forall|j: int| 0 <= j < i ==> out@[j].0 == j + 1 && out@[j].1@ == symbols@[j]@,
        decreases symbols.len() - i,
    {
        let id: u32 = (i as u32) + 1;
        out.push((id, symbols[i].clone()));
        i += 1;
    }
    out
}

proof fn lemma_channels_each(names: Seq<String>, n: nat)
    requires
        n <= names.len(),
    ensures
        channels_spec(names, n) is Ok <==> forall|c: int| 0 <= c < n ==> (#[trigger] configured_channel_spec(names[c]@)) is Ok,
        channels_spec(names, n) matches Ok(chans) ==> chans.len() == n && forall|c: int| 0 <= c < n
            ==> #[trigger] chans[c] == configured_channel_spec(names[c]@)->Ok_0,
    decreases n,
{
    if n > 0 {
        lemma_channels_each(names, (n - 1) as nat);
        if channels_spec(names, (n - 1) as nat) is Err {
            assert(exists|c: int| 0 <= c < n - 1 && !((#[trigger] configured_channel_spec(names[c]@)) is Ok));
            let w = choose|c: int| 0 <= c < n - 1 && !((#[trigger] configured_channel_spec(names[c]@)) is Ok);
            assert(0 <= w < n && !(configured_channel_spec(names[w]@) is Ok));
        }
    }
}

proof fn lemma_symbols_each(
    venue_id: Seq<char>,
    symbols: Seq<String>,
    catalog: Seq<(u32, String)>,
    chans: Seq<(Channel, DeliveryOptions)>,
    n: nat,
)
    requires
        n <= symbols.len(),
    ensures
        symbols_spec(venue_id, symbols, catalog, chans, n) is Ok <==> forall|s: int| 0 <= s < n
            ==> (#[trigger] find_native(catalog, symbols[s]@)) is Some,
        symbols_spec(venue_id, symbols, catalog, chans, n) matches Ok(items) ==> {
            &&& items.len() == n * chans.len()
            &&& forall|s: int, c: int| 0 <= s < n && 0 <= c < chans.len() ==> #[trigger] items[s * chans.len() + c]
                == (ConcreteSubscription {
                instrument: find_native(catalog, symbols[s]@)->Some_0,
                channel: chans[c].0,
                delivery: chans[c].1,
            })
        },
    decreases n,
{
    if n > 0 {
        let m = (n - 1) as nat;
        lemma_symbols_each(venue_id, symbols, catalog, chans, m);
        let k = chans.len();
        if symbols_spec(venue_id, symbols, catalog, chans, m) is Err {
            let w = choose|s: int| 0 <= s < m && !((#[trigger] find_native(catalog, symbols[s]@)) is Some);
            assert(0 <= w < n && !(find_native(catalog, symbols[w]@) is Some));
        }
        if symbols_spec(venue_id, symbols, catalog, chans, n) is Ok {
            let prev = symbols_spec(venue_id, symbols, catalog, chans, m)->Ok_0;
            let id = find_native(catalog, symbols[m as int]@)->Some_0;
            let items = prev + per_instrument(id, chans);
            assert(items.len() == n * k) by (nonlinear_arith)
                requires
                    items.len() == prev.len() + k,
                    prev.len() == m * k,
                    n == m + 1,
            ;
            assert forall|s: int, c: int| 0 <= s < n && 0 <= c < k implies #[trigger] items[s * k + c] == (ConcreteSubscription {
                instrument: find_native(catalog, symbols[s]@)->Some_0,
                channel: chans[c].0,
                delivery: chans[c].1,
            }) by {
                if s < m {
                    assert(s * k + c < m * k) by (nonlinear_arith)
                        requires
                            0 <= s < m,
                            0 <= c < k,
                    ;
                    assert(0 <= s * k + c) by (nonlinear_arith)
                        requires
                            0 <= s,
                            0 <= c,
                            0 <= k,
                    ;
                    assert(items[s * k + c] == prev[s * k + c]);
                } else {
                    assert(s * k + c == m * k + c) by (nonlinear_arith)
                        requires
                            s == m,
                    ;
                    assert(items[s * k + c] == per_instrument(id, chans)[c]);
                }
            }
        }
    }
}

/// A venue expands into the product of its symbols and channels, symbol-major: the
/// expansion succeeds exactly when every configured channel is known and every symbol is
/// in the catalog, and then holds `symbols × channels` subscriptions, the one at
/// `s × channels + c` being the catalog instrument of symbol `s` on channel `c` with
/// that channel's delivery.
pub proof fn lemma_expansion_is_symbol_major_product(v: VenueConfig, catalog: Seq<(u32, String)>)
    ensures
        expansion_spec(v, catalog) is Ok <==> {
            &&& forall|c: int| 0 <= c < v.channels@.len() ==> (#[trigger] configured_channel_spec(v.channels@[c]@)) is Ok
            &&& forall|s: int| 0 <= s < v.symbols@.len() ==> (#[trigger] find_native(catalog, v.symbols@[s]@)) is Some
        },
        expansion_spec(v, catalog) matches Ok(items) ==> {
            &&& items.len() == v.symbols@.len() * v.channels@.len()
            &&& forall|s: int, c: int| 0 <= s < v.symbols@.len() && 0 <= c < v.channels@.len()
                ==> #[trigger] items[s * v.channels@.len() + c] == (ConcreteSubscription {
                instrument: find_native(catalog, v.symbols@[s]@)->Some_0,
                channel: configured_channel_spec(v.channels@[c]@)->Ok_0.0,
                delivery: configured_channel_spec(v.channels@[c]@)->Ok_0.1,
            })
        },
{
    lemma_channels_each(v.channels@, v.channels@.len());
    if channels_spec(v.channels@, v.channels@.len()) is Ok {
        let chans = channels_spec(v.channels@, v.channels@.len())->Ok_0;
        lemma_symbols_each(v.id@, v.symbols@, catalog, chans, v.symbols@.len());
    }
}

} // verus!
