//! One `[[venues]]` entry: which adapter and market segment it names, how it connects,
//! and the channel names it may subscribe to.

use vstd::prelude::*;

use crate::config::{is_validation, ConfigError};
use crate::text::{chars, chars_are, concat2, debug_quoted, debug_text, has_sub, lower, lower_chars, str_contains, str_eq};

verus! {

#[derive(Debug, Clone, Copy, PartialEq, Eq, Structural)]
pub enum TransportMode {
    Live,
    Memory,
}

#[derive(Debug, Clone, Copy, PartialEq, Eq, Structural)]
pub enum VenueKind {
    Synthetic,
    BinanceSpot,
    BinanceUsdm,
    BinanceCoinm,
    OkxSpot,
    OkxSwap,
    OkxFutures,
    BybitLinear,
    BybitSpot,
    BybitInverse,
    KrakenSpot,
    KrakenFutures,
    Deribit,
    Bitstamp,
    Gemini,
    CoinbaseSpot,
    CoinbaseAdvanced,
    CoinbaseIntl,
    Bitfinex,
    BitfinexDeriv,
}

#[derive(Clone)]
pub struct VenueConfig {
    pub id: String,
    pub adapter: String,
    pub segment: Option<String>,
    pub required: bool,
    pub transport: Option<TransportMode>,
    pub symbols: Vec<String>,
    pub channels: Vec<String>,
    pub api_key: Option<String>,
    pub api_secret: Option<String>,
    pub passphrase: Option<String>,
}

/// The canonical name of a channel alias, if it names a known channel.
pub open spec fn canonical_channel_spec(name: Seq<char>) -> Option<Seq<char>> {
    let l = lower(name);
    if l == "trades"@ {
        Some("trades"@)
    } else if l == "quote"@ || l == "ticker"@ {
        Some("quote"@)
    } else if l == "l2"@ || l == "l2_book"@ || l == "book"@ {
        Some("l2"@)
    } else if l == "funding"@ {
        Some("funding"@)
    } else if l == "open_interest"@ {
        Some("open_interest"@)
    } else if l == "liquidations"@ {
        Some("liquidations"@)
    } else if l == "mark"@ || l == "mark_price"@ {
        Some("mark"@)
    } else if l == "index"@ {
        Some("index"@)
    } else if l == "candles"@ {
        Some("candles"@)
    } else {
        None
    }
}

/// Maps a configured channel name (any ASCII case, aliases allowed) to its canonical name.
pub fn canonical_channel_name(name: &str) -> (r: Option<&'static str>)
    ensures
        match canonical_channel_spec(name@) {
            Some(c) => r matches Some(s) && s@ == c,
            None => r is None,
        },
{
    let l = lower_chars(name);
    if chars_are(&l, "trades") {
        Some("trades")
    } else if chars_are(&l, "quote") || chars_are(&l, "ticker") {
        Some("quote")
    } else if chars_are(&l, "l2") || chars_are(&l, "l2_book") || chars_are(&l, "book") {
        Some("l2")
    } else if chars_are(&l, "funding") {
        Some("funding")
    } else if chars_are(&l, "open_interest") {
        Some("open_interest")
    } else if chars_are(&l, "liquidations") {
        Some("liquidations")
    } else if chars_are(&l, "mark") || chars_are(&l, "mark_price") {
        Some("mark")
    } else if chars_are(&l, "index") {
        Some("index")
    } else if chars_are(&l, "candles") {
        Some("candles")
    } else {
        None
    }
}

/// The segment a venue names explicitly, or the one its id suggests.
pub open spec fn segment_or(seg: Option<String>, default: Seq<char>) -> Seq<char> {
    match seg {
        Some(s) => s@,
        None => default,
    }
}

/// How `Debug` shows a list of strings: `["a", "b"]`.
pub open spec fn list_text(v: Seq<String>) -> Seq<char> {
    "["@ + list_items(v, v.len()) + "]"@
}

pub open spec fn list_items(v: Seq<String>, n: nat) -> Seq<char>
    decreases n,
{
    if n == 0 || n > v.len() {
        seq![]
    } else if n == 1 {
        debug_text(v[0]@)
    } else {
        list_items(v, (n - 1) as nat) + ", "@ + debug_text(v[n - 1]@)
    }
}

fn list_debug(v: &Vec<String>) -> (s: String)
    ensures
        s@ == list_text(v@),
{
    let mut s = String::from_str("[");
    let mut i: usize = 0;
    while i < v.len()
        invariant
            i <= v@.len(),
            s@ == "["@ + list_items(v@, i as nat),
        decreases v.len() - i,
    {
        if i > 0 {
            s.append(", ");
        }
        let q = debug_quoted(v[i].as_str());
        s.append(q.as_str());
        i += 1;
        assert(s@ =~= "["@ + list_items(v@, i as nat));
    }
    s.append("]");
    s
}

/// How `Debug` shows an optional string.
pub open spec fn opt_text(o: Option<String>) -> Seq<char> {
    match o {
        Some(x) => "Some("@ + debug_text(x@) + ")"@,
        None => "None"@,
    }
}

pub(crate) fn opt_debug(o: &Option<String>) -> (s: String)
    ensures
        s@ == opt_text(*o),
{
    match o {
        Some(x) => {
            let mut s = String::from_str("Some(");
            let q = debug_quoted(x.as_str());
            s.append(q.as_str());
            s.append(")");
            s
        },
        None => String::from_str("None"),
    }
}

pub open spec fn transport_text(t: Option<TransportMode>) -> Seq<char> {
    match t {
        Some(TransportMode::Live) => "Some(Live)"@,
        Some(TransportMode::Memory) => "Some(Memory)"@,
        None => "None"@,
    }
}

fn transport_debug(t: Option<TransportMode>) -> (s: &'static str)
    ensures
        s@ == transport_text(t),
{
    match t {
        Some(TransportMode::Live) => "Some(Live)",
        Some(TransportMode::Memory) => "Some(Memory)",
        None => "None",
    }
}

impl VenueConfig {
    pub open spec fn spec_has_toml_secrets(&self) -> bool {
        self.api_key is Some || self.api_secret is Some || self.passphrase is Some
    }

    pub fn has_toml_secrets(&self) -> (b: bool)
        ensures
            b == self.spec_has_toml_secrets(),
    {
        self.api_key.is_some() || self.api_secret.is_some() || self.passphrase.is_some()
    }

    pub open spec fn redacted_text(&self) -> Seq<char> {
        "VenueConfig { id: "@ + debug_text(self.id@) + ", adapter: "@ + debug_text(self.adapter@)
            + ", segment: "@ + opt_text(self.segment) + ", required: "@ + crate::config::bool_text(
            self.required,
        ) + ", transport: "@ + transport_text(self.transport) + ", symbols: "@ + list_text(self.symbols@)
            + ", channels: "@ + list_text(self.channels@) + ", api_key: "@ + crate::config::redacted_field(
            self.api_key,
        ) + ", api_secret: "@ + crate::config::redacted_field(self.api_secret) + ", passphrase: "@
            + crate::config::redacted_field(self.passphrase) + " }"@
    }

    /// The `Debug` text of the venue, with every credential shown as `<redacted>`.
    pub fn redacted_debug(&self) -> (s: String)
        ensures
            s@ == self.redacted_text(),
    {
        let mut s = String::from_str("VenueConfig { id: ");
        let q = debug_quoted(self.id.as_str());
        s.append(q.as_str());
        s.append(", adapter: ");
        let q = debug_quoted(self.adapter.as_str());
        s.append(q.as_str());
        s.append(", segment: ");
        let t = opt_debug(&self.segment);
        s.append(t.as_str());
        s.append(", required: ");
        s.append(crate::config::bool_str(self.required));
        s.append(", transport: ");
        s.append(transport_debug(self.transport));
        s.append(", symbols: ");
        let t = list_debug(&self.symbols);
        s.append(t.as_str());
        s.append(", channels: ");
        let t = list_debug(&self.channels);
        s.append(t.as_str());
        s.append(", api_key: ");
        s.append(crate::config::redacted(&self.api_key));
        s.append(", api_secret: ");
        s.append(crate::config::redacted(&self.api_secret));
        s.append(", passphrase: ");
        s.append(crate::config::redacted(&self.passphrase));
        s.append(" }");
        s
    }

    pub open spec fn transport_spec(&self) -> TransportMode {
        match self.transport {
            Some(t) => t,
            None => if self.adapter@ == "synthetic"@ { TransportMode::Memory } else { TransportMode::Live },
        }
    }

    /// The configured transport, or the adapter's default (memory for `synthetic`).
    pub fn resolved_transport(&self) -> (t: TransportMode)
        ensures
            t == self.transport_spec(),
    {
        match self.transport {
            Some(t) => t,
            None => {
                if str_eq(self.adapter.as_str(), "synthetic") {
                    TransportMode::Memory
                } else {
                    TransportMode::Live
                }
            },
        }
    }

    pub open spec fn unknown_segment(&self, venue: Seq<char>, seg: Seq<char>, choices: Seq<char>) -> Seq<char> {
        "venue "@ + self.id@ + ": unknown "@ + venue + " segment "@ + debug_text(seg) + choices
    }

    pub open spec fn kind_spec(&self) -> Result<VenueKind, Seq<char>> {
        let a = self.adapter@;
        let id = self.id@;
        if a == "synthetic"@ {
            Ok(VenueKind::Synthetic)
        } else if a == "binance"@ {
            let seg = segment_or(self.segment, if has_sub(id, "usdm"@) { "usdm"@ } else if has_sub(id, "coinm"@) { "coinm"@ } else { "spot"@ });
            if seg == "spot"@ {
                Ok(VenueKind::BinanceSpot)
            } else if seg == "usdm"@ || seg == "linear"@ {
                Ok(VenueKind::BinanceUsdm)
            } else if seg == "coinm"@ || seg == "inverse"@ || seg == "dapi"@ {
                Ok(VenueKind::BinanceCoinm)
            } else {
                Err(self.unknown_segment("binance"@, seg, " (spot|usdm|coinm)"@))
            }
        } else if a == "okx"@ {
            let seg = segment_or(self.segment, "spot"@);
            if seg == "spot"@ {
                Ok(VenueKind::OkxSpot)
            } else if seg == "swap"@ || seg == "linear"@ || seg == "perp"@ {
                Ok(VenueKind::OkxSwap)
            } else if seg == "futures"@ || seg == "future"@ {
                Ok(VenueKind::OkxFutures)
            } else {
                Err(self.unknown_segment("okx"@, seg, " (spot|swap|futures)"@))
            }
        } else if a == "bybit"@ {
            let seg = segment_or(self.segment, if has_sub(id, "spot"@) { "spot"@ } else if has_sub(id, "inverse"@) { "inverse"@ } else { "linear"@ });
            if seg == "linear"@ || seg == "usdm"@ || seg == "perp"@ {
                Ok(VenueKind::BybitLinear)
            } else if seg == "spot"@ {
                Ok(VenueKind::BybitSpot)
            } else if seg == "inverse"@ || seg == "coinm"@ {
                Ok(VenueKind::BybitInverse)
            } else {
                Err(self.unknown_segment("bybit"@, seg, " (linear|spot|inverse)"@))
            }
        } else if a == "kraken"@ {
            let seg = segment_or(self.segment, "spot"@);
            if seg == "spot"@ {
                Ok(VenueKind::KrakenSpot)
            } else if seg == "futures"@ || seg == "future"@ || seg == "derivatives"@ {
                Ok(VenueKind::KrakenFutures)
            } else {
                Err(self.unknown_segment("kraken"@, seg, " (spot|futures)"@))
            }
        } else if a == "deribit"@ {
            Ok(VenueKind::Deribit)
        } else if a == "bitstamp"@ {
            Ok(VenueKind::Bitstamp)
        } else if a == "gemini"@ {
            Ok(VenueKind::Gemini)
        } else if a == "coinbase"@ {
            let seg = segment_or(self.segment, if has_sub(id, "intl"@) { "intl"@ } else if has_sub(id, "adv"@) { "advanced"@ } else { "spot"@ });
            if seg == "spot"@ || seg == "exchange"@ {
                Ok(VenueKind::CoinbaseSpot)
            } else if seg == "advanced"@ || seg == "adv"@ {
                Ok(VenueKind::CoinbaseAdvanced)
            } else if seg == "intl"@ || seg == "international"@ || seg == "intx"@ {
                Ok(VenueKind::CoinbaseIntl)
            } else {
                Err(self.unknown_segment("coinbase"@, seg, " (spot|advanced|intl)"@))
            }
        } else if a == "bitfinex"@ {
            let seg = segment_or(self.segment, if has_sub(id, "deriv"@) { "deriv"@ } else { "spot"@ });
            if seg == "spot"@ || seg == "exchange"@ {
                Ok(VenueKind::Bitfinex)
            } else if seg == "deriv"@ || seg == "derivatives"@ || seg == "futures"@ || seg == "perp"@ {
                Ok(VenueKind::BitfinexDeriv)
            } else {
                Err(self.unknown_segment("bitfinex"@, seg, ""@))
            }
        } else {
            Err("unknown adapter "@ + debug_text(a) + " for venue "@ + id)
        }
    }

    fn segment_error(&self, venue: &str, seg: &Vec<char>, choices: &str) -> (e: ConfigError)
        ensures
            is_validation(e, self.unknown_segment(venue@, seg@, choices@)),
    {
        let shown = crate::text::string_of(seg);
        let q = debug_quoted(shown.as_str());
        let mut m = concat2("venue ", self.id.as_str());
        m.append(": unknown ");
        m.append(venue);
        m.append(" segment ");
        m.append(q.as_str());
        m.append(choices);
        ConfigError::Validation(m)
    }

    /// The explicit segment, or `default` when none is configured.
    fn segment_chars(&self, default: &str) -> (v: Vec<char>)
        ensures
            v@ == segment_or(self.segment, default@),
    {
        match &self.segment {
            Some(s) => chars(s.as_str()),
            None => chars(default),
        }
    }

    /// The venue kind named by the adapter and segment (or, without a segment, by the id).
    pub fn resolved_kind(&self) -> (r: Result<VenueKind, ConfigError>)
        ensures
            match self.kind_spec() {
                Ok(k) => r == Ok::<VenueKind, ConfigError>(k),
                Err(m) => r matches Err(e) && is_validation(e, m),
            },
    {
        let a = chars(self.adapter.as_str());
        let id = self.id.as_str();
        if chars_are(&a, "synthetic") {
            Ok(VenueKind::Synthetic)
        } else if chars_are(&a, "binance") {
            let default = if str_contains(id, "usdm") { "usdm" } else if str_contains(id, "coinm") { "coinm" } else { "spot" };
            let seg = self.segment_chars(default);
            if chars_are(&seg, "spot") {
                Ok(VenueKind::BinanceSpot)
            } else if chars_are(&seg, "usdm") || chars_are(&seg, "linear") {
                Ok(VenueKind::BinanceUsdm)
            } else if chars_are(&seg, "coinm") || chars_are(&seg, "inverse") || chars_are(&seg, "dapi") {
                Ok(VenueKind::BinanceCoinm)
            } else {
                Err(self.segment_error("binance", &seg, " (spot|usdm|coinm)"))
            }
        } else if chars_are(&a, "okx") {
            let seg = self.segment_chars("spot");
            if chars_are(&seg, "spot") {
                Ok(VenueKind::OkxSpot)
            } else if chars_are(&seg, "swap") || chars_are(&seg, "linear") || chars_are(&seg, "perp") {
                Ok(VenueKind::OkxSwap)
            } else if chars_are(&seg, "futures") || chars_are(&seg, "future") {
                Ok(VenueKind::OkxFutures)
            } else {
                Err(self.segment_error("okx", &seg, " (spot|swap|futures)"))
            }
        } else if chars_are(&a, "bybit") {
            let default = if str_contains(id, "spot") { "spot" } else if str_contains(id, "inverse") { "inverse" } else { "linear" };
            let seg = self.segment_chars(default);
            if chars_are(&seg, "linear") || chars_are(&seg, "usdm") || chars_are(&seg, "perp") {
                Ok(VenueKind::BybitLinear)
            } else if chars_are(&seg, "spot") {
                Ok(VenueKind::BybitSpot)
            } else if chars_are(&seg, "inverse") || chars_are(&seg, "coinm") {
                Ok(VenueKind::BybitInverse)
            } else {
                Err(self.segment_error("bybit", &seg, " (linear|spot|inverse)"))
            }
        } else if chars_are(&a, "kraken") {
            let seg = self.segment_chars("spot");
            if chars_are(&seg, "spot") {
                Ok(VenueKind::KrakenSpot)
            } else if chars_are(&seg, "futures") || chars_are(&seg, "future") || chars_are(&seg, "derivatives") {
                Ok(VenueKind::KrakenFutures)
            } else {
                Err(self.segment_error("kraken", &seg, " (spot|futures)"))
            }
        } else if chars_are(&a, "deribit") {
            Ok(VenueKind::Deribit)
        } else if chars_are(&a, "bitstamp") {
            Ok(VenueKind::Bitstamp)
        } else if chars_are(&a, "gemini") {
            Ok(VenueKind::Gemini)
        } else if chars_are(&a, "coinbase") {
            let default = if str_contains(id, "intl") { "intl" } else if str_contains(id, "adv") { "advanced" } else { "spot" };
            let seg = self.segment_chars(default);
            if chars_are(&seg, "spot") || chars_are(&seg, "exchange") {
                Ok(VenueKind::CoinbaseSpot)
            } else if chars_are(&seg, "advanced") || chars_are(&seg, "adv") {
                Ok(VenueKind::CoinbaseAdvanced)
            } else if chars_are(&seg, "intl") || chars_are(&seg, "international") || chars_are(&seg, "intx") {
                Ok(VenueKind::CoinbaseIntl)
            } else {
                Err(self.segment_error("coinbase", &seg, " (spot|advanced|intl)"))
            }
        } else if chars_are(&a, "bitfinex") {
            let default = if str_contains(id, "deriv") { "deriv" } else { "spot" };
            let seg = self.segment_chars(default);
            if chars_are(&seg, "spot") || chars_are(&seg, "exchange") {
                Ok(VenueKind::Bitfinex)
            } else if chars_are(&seg, "deriv") || chars_are(&seg, "derivatives") || chars_are(&seg, "futures")
                || chars_are(&seg, "perp") {
                Ok(VenueKind::BitfinexDeriv)
            } else {
                Err(self.segment_error("bitfinex", &seg, ""))
            }
        } else {
            let q = debug_quoted(self.adapter.as_str());
            let mut m = concat2("unknown adapter ", q.as_str());
            m.append(" for venue ");
            m.append(id);
            Err(ConfigError::Validation(m))
        }
    }

    pub open spec fn spec_wants_l2(&self) -> bool {
        exists|i: int| 0 <= i < self.channels@.len() && #[trigger] is_l2_channel(self.channels@[i]@)
    }

    /// Whether any configured channel asks for L2 book data.
    pub fn wants_l2(&self) -> (b: bool)
        ensures
            b == self.spec_wants_l2(),
    {
        let mut i: usize = 0;
        while i < self.channels.len()
            invariant
                i <= self.channels.len(),
                forall|k: int| 0 <= k < i ==> !is_l2_channel(#[trigger] self.channels@[k]@),
            decreases self.channels.len() - i,
        {
            let c = lower_chars(self.channels[i].as_str());
            if chars_are(&c, "l2") || chars_are(&c, "l2_book") || chars_are(&c, "book") {
                assert(is_l2_channel(self.channels@[i as int]@));
                return true;
            }
            i += 1;
        }
        false
    }
}

/// A channel name that asks for L2 book data.
pub open spec fn is_l2_channel(c: Seq<char>) -> bool {
    let l = lower(c);
    l == "l2"@ || l == "l2_book"@ || l == "book"@
}

/// The kind of instrument a venue lists.
#[derive(Debug, Clone, Copy, PartialEq, Eq, Structural)]
pub enum InstrumentKind {
    Spot,
    PerpetualLinear,
    PerpetualInverse,
    FutureLinear,
    FutureInverse,
}

/// Whether instruments of a kind are margined in the base asset.
pub open spec fn is_inverse(k: InstrumentKind) -> bool {
    k == InstrumentKind::PerpetualInverse || k == InstrumentKind::FutureInverse
}

pub fn inverse(k: InstrumentKind) -> (b: bool)
    ensures
        b == is_inverse(k),
{
    match k {
        InstrumentKind::PerpetualInverse | InstrumentKind::FutureInverse => true,
        _ => false,
    }
}

/// The venue code and instrument kind of each venue kind.
pub open spec fn venue_meta_spec(kind: VenueKind) -> (Seq<char>, InstrumentKind) {
    match kind {
        VenueKind::Synthetic => ("synthetic"@, InstrumentKind::Spot),
        VenueKind::BinanceSpot => ("binance-spot"@, InstrumentKind::Spot),
        VenueKind::BinanceUsdm => ("binance-usdm"@, InstrumentKind::PerpetualLinear),
        VenueKind::BinanceCoinm => ("binance-coinm"@, InstrumentKind::PerpetualInverse),
        VenueKind::OkxSpot => ("okx-spot"@, InstrumentKind::Spot),
        VenueKind::OkxSwap => ("okx-swap"@, InstrumentKind::PerpetualLinear),
        VenueKind::OkxFutures => ("okx-futures"@, InstrumentKind::FutureLinear),
        VenueKind::BybitLinear => ("bybit-linear"@, InstrumentKind::PerpetualLinear),
        VenueKind::BybitSpot => ("bybit-spot"@, InstrumentKind::Spot),
        VenueKind::BybitInverse => ("bybit-inverse"@, InstrumentKind::PerpetualInverse),
        VenueKind::KrakenSpot => ("kraken-spot"@, InstrumentKind::Spot),
        VenueKind::KrakenFutures => ("kraken-futures"@, InstrumentKind::PerpetualLinear),
        VenueKind::Deribit => ("deribit"@, InstrumentKind::PerpetualInverse),
        VenueKind::Bitstamp => ("bitstamp"@, InstrumentKind::Spot),
        VenueKind::Gemini => ("gemini"@, InstrumentKind::Spot),
        VenueKind::CoinbaseSpot => ("coinbase-spot"@, InstrumentKind::Spot),
        VenueKind::CoinbaseAdvanced => ("coinbase-adv"@, InstrumentKind::Spot),
        VenueKind::CoinbaseIntl => ("coinbase-intl"@, InstrumentKind::PerpetualLinear),
        VenueKind::Bitfinex => ("bitfinex"@, InstrumentKind::Spot),
        VenueKind::BitfinexDeriv => ("bitfinex-deriv"@, InstrumentKind::PerpetualLinear),
    }
}

/// The venue code and the kind of instruments a venue kind trades.
pub fn venue_meta(kind: VenueKind) -> (r: (&'static str, InstrumentKind))
    ensures
        (r.0@, r.1) == venue_meta_spec(kind),
{
    match kind {
        VenueKind::Synthetic => ("synthetic", InstrumentKind::Spot),
        VenueKind::BinanceSpot => ("binance-spot", InstrumentKind::Spot),
        VenueKind::BinanceUsdm => ("binance-usdm", InstrumentKind::PerpetualLinear),
        VenueKind::BinanceCoinm => ("binance-coinm", InstrumentKind::PerpetualInverse),
        VenueKind::OkxSpot => ("okx-spot", InstrumentKind::Spot),
        VenueKind::OkxSwap => ("okx-swap", InstrumentKind::PerpetualLinear),
        VenueKind::OkxFutures => ("okx-futures", InstrumentKind::FutureLinear),
        VenueKind::BybitLinear => ("bybit-linear", InstrumentKind::PerpetualLinear),
        VenueKind::BybitSpot => ("bybit-spot", InstrumentKind::Spot),
        VenueKind::BybitInverse => ("bybit-inverse", InstrumentKind::PerpetualInverse),
        VenueKind::KrakenSpot => ("kraken-spot", InstrumentKind::Spot),
        VenueKind::KrakenFutures => ("kraken-futures", InstrumentKind::PerpetualLinear),
        VenueKind::Deribit => ("deribit", InstrumentKind::PerpetualInverse),
        VenueKind::Bitstamp => ("bitstamp", InstrumentKind::Spot),
        VenueKind::Gemini => ("gemini", InstrumentKind::Spot),
        VenueKind::CoinbaseSpot => ("coinbase-spot", InstrumentKind::Spot),
        VenueKind::CoinbaseAdvanced => ("coinbase-adv", InstrumentKind::Spot),
        VenueKind::CoinbaseIntl => ("coinbase-intl", InstrumentKind::PerpetualLinear),
        VenueKind::Bitfinex => ("bitfinex", InstrumentKind::Spot),
        VenueKind::BitfinexDeriv => ("bitfinex-deriv", InstrumentKind::PerpetualLinear),
    }
}


/// Credentials never reach the `Debug` text: two venues that differ only in the values
/// of their credentials (present in both or absent in both) print the same.
pub proof fn lemma_venue_debug_hides_credentials(a: VenueConfig, b: VenueConfig)
    requires
        a.id@ == b.id@,
        a.adapter@ == b.adapter@,
        a.segment == b.segment,
        a.required == b.required,
        a.transport == b.transport,
        a.symbols@ == b.symbols@,
        a.channels@ == b.channels@,
        a.api_key is Some <==> b.api_key is Some,
        a.api_secret is Some <==> b.api_secret is Some,
        a.passphrase is Some <==> b.passphrase is Some,
    ensures
        a.redacted_text() == b.redacted_text(),
{
}
/// The channel names are exactly these, in any ASCII case: `trades`; `quote` or
/// `ticker`; `l2`, `l2_book` or `book`; `funding`; `open_interest`; `liquidations`;
/// `mark` or `mark_price`; `index`; `candles`. Each alias names its own channel, and any
/// other name is unknown.
pub proof fn lemma_channel_names_exactly(name: Seq<char>)
    ensures
        ({
            let l = lower(name);
            &&& canonical_channel_spec(name) == Some("trades"@) <==> l == "trades"@
            &&& canonical_channel_spec(name) == Some("quote"@) <==> (l == "quote"@ || l == "ticker"@)
            &&& canonical_channel_spec(name) == Some("l2"@) <==> (l == "l2"@ || l == "l2_book"@ || l == "book"@)
            &&& canonical_channel_spec(name) == Some("funding"@) <==> l == "funding"@
            &&& canonical_channel_spec(name) == Some("open_interest"@) <==> l == "open_interest"@
            &&& canonical_channel_spec(name) == Some("liquidations"@) <==> l == "liquidations"@
            &&& canonical_channel_spec(name) == Some("mark"@) <==> (l == "mark"@ || l == "mark_price"@)
            &&& canonical_channel_spec(name) == Some("index"@) <==> l == "index"@
            &&& canonical_channel_spec(name) == Some("candles"@) <==> l == "candles"@
            &&& canonical_channel_spec(name) is None <==> !(l == "trades"@ || l == "quote"@ || l == "ticker"@ || l == "l2"@
                || l == "l2_book"@ || l == "book"@ || l == "funding"@ || l == "open_interest"@ || l == "liquidations"@
                || l == "mark"@ || l == "mark_price"@ || l == "index"@ || l == "candles"@)
        }),
{
    reveal_strlit("trades");
    reveal_strlit("quote");
    reveal_strlit("ticker");
    reveal_strlit("l2");
    reveal_strlit("l2_book");
    reveal_strlit("book");
    reveal_strlit("funding");
    reveal_strlit("open_interest");
    reveal_strlit("liquidations");
    reveal_strlit("mark");
    reveal_strlit("mark_price");
    reveal_strlit("index");
    reveal_strlit("candles");
    assert("trades"@.len() == 6 && "quote"@.len() == 5 && "ticker"@.len() == 6 && "l2"@.len() == 2);
    assert("l2_book"@.len() == 7 && "book"@.len() == 4 && "funding"@.len() == 7 && "open_interest"@.len() == 13);
    assert("liquidations"@.len() == 12 && "mark"@.len() == 4 && "mark_price"@.len() == 10 && "index"@.len() == 5);
    assert("candles"@.len() == 7);
    assert("trades"@[1] != "ticker"@[1] && "quote"@[0] != "index"@[0] && "book"@[0] != "mark"@[0]);
    assert("l2_book"@[0] != "funding"@[0] && "l2_book"@[0] != "candles"@[0] && "funding"@[0] != "candles"@[0]);
}

} // verus!
