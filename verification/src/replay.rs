//! Replay files for the view UI: where they live, which names may be read, how a
//! listing is ordered, which window of records a read returns, how recorded events
//! become scrubber rows, and how fixed-point values are printed.

use vstd::prelude::*;

use crate::config::DaemonConfig;
use crate::text::{chars, decimal, decimal_string, ends_with, has_sub, str_contains, str_ends_with, str_has_char};

verus! {

broadcast use vstd::string::group_string_axioms;

/// A replay file offered to the UI.
#[derive(Debug, Clone, PartialEq, Eq)]
pub struct ReplayFileInfo {
    pub name: String,
    pub size_bytes: u64,
    pub format: String,
}

/// The replay directory and its files, ordered by name.
#[derive(Debug, Clone, PartialEq, Eq)]
pub struct ReplayFilesResponse {
    pub directory: String,
    pub files: Vec<ReplayFileInfo>,
}

/// The directory replay files are read from when the configuration names none.
pub open spec fn default_replay_dir() -> Seq<char> {
    ".local/live-ui/raw"@
}

/// The configured replay directory, or the default one.
pub fn replay_root(config: &DaemonConfig) -> (r: String)
    ensures
        r@ == match config.telemetry.replay_dir {
            Some(d) => d@,
            None => default_replay_dir(),
        },
{
    match &config.telemetry.replay_dir {
        Some(d) => d.clone(),
        None => String::from_str(".local/live-ui/raw"),
    }
}

/// The format of a replay file, by its extension; other files are not listed.
pub open spec fn replay_format_spec(name: Seq<char>) -> Option<Seq<char>> {
    if ends_with(name, ".jsonl"@) {
        Some("jsonl"@)
    } else if ends_with(name, ".mfne"@) {
        Some("mfne"@)
    } else {
        None
    }
}

pub fn replay_format(name: &str) -> (r: Option<&'static str>)
    ensures
        crate::route::opt_str_view(r) == replay_format_spec(name@),
{
    if str_ends_with(name, ".jsonl") {
        Some("jsonl")
    } else if str_ends_with(name, ".mfne") {
        Some("mfne")
    } else {
        None
    }
}

/// Whether a file name asked for may be looked up in the replay directory: not empty,
/// free of NUL and `..` (`Err` names the reason), and relative.
pub open spec fn replay_name_spec(file: Seq<char>) -> Result<(), Seq<char>> {
    if file.len() == 0 || file.contains('\0') || has_sub(file, ".."@) {
        Err("invalid file name"@)
    } else if file[0] == '/' {
        Err("invalid file path"@)
    } else {
        Ok(())
    }
}

pub open spec fn unit_err_view(r: Result<(), String>) -> Result<(), Seq<char>> {
    match r {
        Ok(()) => Ok(()),
        Err(m) => Err(m@),
    }
}

pub fn check_replay_name(file: &str) -> (r: Result<(), String>)
    ensures
        unit_err_view(r) == replay_name_spec(file@),
{
    let v = chars(file);
    if v.len() == 0 || str_has_char(file, '\0') || str_contains(file, "..") {
        return Err(String::from_str("invalid file name"));
    }
    if v[0] == '/' {
        return Err(String::from_str("invalid file path"));
    }
    Ok(())
}

// ---------------------------------------------------------------------------
// Ordering a listing by name.

/// `a < b` in the order of `str`: the first differing character decides, and a proper
/// prefix comes first.
pub open spec fn name_less(a: Seq<char>, b: Seq<char>) -> bool
    decreases a.len(),
{
    if a.len() == 0 {
        b.len() > 0
    } else if b.len() == 0 {
        false
    } else if a[0] != b[0] {
        (a[0] as u32) < (b[0] as u32)
    } else {
        name_less(a.drop_first(), b.drop_first())
    }
}

fn str_less(a: &str, b: &str) -> (r: bool)
    ensures
        r == name_less(a@, b@),
{
    let x = chars(a);
    let y = chars(b);
    let mut i: usize = 0;
    assert(x@.skip(0) =~= x@);
    assert(y@.skip(0) =~= y@);
    while i < x.len() && i < y.len()
        invariant
            x@ == a@,
            y@ == b@,
            i <= x.len(),
            i <= y.len(),
            name_less(x@, y@) == name_less(x@.skip(i as int), y@.skip(i as int)),
        decreases x.len() - i,
    {
        assert(x@.skip(i as int)[0] == x@[i as int]);
        assert(y@.skip(i as int)[0] == y@[i as int]);
        if x[i] != y[i] {
            let cx = x[i];
            let cy = y[i];
            assert(name_less(x@.skip(i as int), y@.skip(i as int)) == ((cx as u32) < (cy as u32)));
            let less = (cx as u32) < (cy as u32);
            return less;
        }
        assert(x@.skip(i as int).drop_first() =~= x@.skip(i + 1));
        assert(y@.skip(i as int).drop_first() =~= y@.skip(i + 1));
        i += 1;
    }
    i < y.len()
}

proof fn lemma_name_less_irreflexive(a: Seq<char>)
    ensures
        !name_less(a, a),
    decreases a.len(),
{
    if a.len() > 0 {
        lemma_name_less_irreflexive(a.drop_first());
    }
}

proof fn lemma_name_less_total(a: Seq<char>, b: Seq<char>)
    ensures
        a != b ==> name_less(a, b) || name_less(b, a),
    decreases a.len(),
{
    if a.len() > 0 && b.len() > 0 && a[0] != b[0] {
        vstd::utf8::char_u32_cast(a[0], a[0] as u32);
        vstd::utf8::char_u32_cast(b[0], b[0] as u32);
    }
    if a.len() > 0 && b.len() > 0 && a[0] == b[0] {
        lemma_name_less_total(a.drop_first(), b.drop_first());
        if a.drop_first() == b.drop_first() {
            assert(a.drop_first().len() == b.drop_first().len());
            assert(a.len() == b.len());
            assert forall|i: int| 0 <= i < a.len() implies a[i] == b[i] by {
                if i > 0 {
                    assert(a[i] == a.drop_first()[i - 1]);
                    assert(b[i] == b.drop_first()[i - 1]);
                }
            }
            assert(a =~= b);
        }
    } else if a.len() == 0 && b.len() == 0 {
        assert(a =~= b);
    }
}

proof fn lemma_name_less_transitive(a: Seq<char>, b: Seq<char>, c: Seq<char>)
    requires
        name_less(a, b),
        name_less(b, c),
    ensures
        name_less(a, c),
    decreases a.len(),
{
    if a.len() > 0 && b.len() > 0 && c.len() > 0 && a[0] == b[0] && b[0] == c[0] {
        lemma_name_less_transitive(a.drop_first(), b.drop_first(), c.drop_first());
    }
}

proof fn lemma_name_less_asymmetric(a: Seq<char>, b: Seq<char>)
    requires
        name_less(a, b),
    ensures
        !name_less(b, a),
{
    if name_less(b, a) {
        lemma_name_less_transitive(a, b, a);
        lemma_name_less_irreflexive(a);
    }
}

/// Not-greater is transitive.
proof fn lemma_name_le_transitive(a: Seq<char>, b: Seq<char>, c: Seq<char>)
    requires
        !name_less(b, a),
        !name_less(c, b),
    ensures
        !name_less(c, a),
{
    if name_less(c, a) {
        lemma_name_less_total(a, b);
        if a == b {
        } else if name_less(a, b) {
            lemma_name_less_transitive(c, a, b);
        }
    }
}

/// Files ordered by name, equal names in any order.
pub open spec fn sorted_by_name(files: Seq<ReplayFileInfo>) -> bool {
    forall|i: int, j: int| 0 <= i < j < files.len() ==> !name_less(files[j].name@, files[i].name@)
}

/// Orders a listing by file name; the files are the same, only their order changes.
pub fn sort_by_name(files: Vec<ReplayFileInfo>) -> (r: Vec<ReplayFileInfo>)
    ensures
        r@.to_multiset() == files@.to_multiset(),
        sorted_by_name(r@),
{
    broadcast use vstd::seq_lib::to_multiset_insert, vstd::seq_lib::to_multiset_build;

    let ghost all = files@;
    let mut out: Vec<ReplayFileInfo> = Vec::new();
    assert(all.take(0) =~= out@);
    for f in it: files
        invariant
            it.seq() == all,
            out@.to_multiset() == all.take(it.index() as int).to_multiset(),
            sorted_by_name(out@),
    {
        let ghost k = it.index() as int;
        let ghost before = out@;
        let mut p: usize = out.len();
        while p > 0 && str_less(f.name.as_str(), out[p - 1].name.as_str())
            invariant
                p <= out.len(),
                out@ == before,
                sorted_by_name(out@),
                forall|q: int| p <= q < out.len() ==> name_less(f.name@, #[trigger] out@[q].name@),
            decreases p,
        {
            p -= 1;
        }
        proof {
            if p > 0 {
                assert(!name_less(f.name@, out@[p - 1].name@));
            }
        }
        let ghost fv = f;
        out.insert(p, f);
        proof {
            let s = out@;
            assert(s == before.insert(p as int, fv));
            assert forall|i: int, j: int| 0 <= i < j < s.len() implies !name_less(s[j].name@, s[i].name@) by {
                if j < p {
                    assert(s[i] == before[i] && s[j] == before[j]);
                } else if j == p {
                    assert(s[i] == before[i]);
                    if i < p - 1 {
                        lemma_name_le_transitive(before[i].name@, before[p - 1].name@, fv.name@);
                    }
                } else if i == p {
                    assert(s[j] == before[j - 1]);
                    lemma_name_less_asymmetric(fv.name@, before[j - 1].name@);
                } else if i < p {
                    assert(s[i] == before[i] && s[j] == before[j - 1]);
                } else {
                    assert(s[i] == before[i - 1] && s[j] == before[j - 1]);
                }
            }
            assert(all.take(k + 1) =~= all.take(k).push(fv));
            vstd::seq_lib::to_multiset_insert(before, p as int, fv);
            vstd::seq_lib::to_multiset_build(all.take(k), fv);
        }
    }
    assert(all.take(all.len() as int) =~= all);
    out
}

// ---------------------------------------------------------------------------
// The window of records a read returns.

/// Records per read: the requested number clamped to `1..=500`.
pub open spec fn replay_limit_spec(limit: u64) -> u64 {
    if limit < 1 {
        1
    } else if limit > 500 {
        500
    } else {
        limit
    }
}

pub fn replay_limit(limit: u64) -> (r: u64)
    ensures
        r == replay_limit_spec(limit),
{
    if limit < 1 {
        1
    } else if limit > 500 {
        500
    } else {
        limit
    }
}

/// The records `start..end` a read at `offset` returns out of `total`, at most `limit`.
pub open spec fn replay_window_spec(total: usize, offset: u64, limit: u64) -> (usize, usize) {
    let o = offset as usize;
    let start = if o < total { o } else { total };
    let l = limit as usize;
    let e = if start + l > usize::MAX { usize::MAX } else { (start + l) as usize };
    (start, if e < total { e } else { total })
}

pub fn replay_window(total: usize, offset: u64, limit: u64) -> (r: (usize, usize))
    ensures
        r == replay_window_spec(total, offset, limit),
        r.0 <= r.1 <= total,
{
    let o = offset as usize;
    let start = if o < total { o } else { total };
    let e = start.saturating_add(limit as usize);
    (start, if e < total { e } else { total })
}

// ---------------------------------------------------------------------------
// Fixed-point values.

/// A decimal fixed-point value: `coefficient * 10^-scale`.
#[derive(Debug, Clone, Copy, PartialEq, Eq, Structural)]
pub struct Fixed {
    pub coefficient: i128,
    pub scale: u8,
}

/// The value a replay record stores as two 64-bit halves of the coefficient and a scale.
pub open spec fn parts_spec(lo: i64, hi: i64, scale: u64) -> Fixed {
    Fixed { coefficient: (hi * 0x1_0000_0000_0000_0000 + (lo as u64)) as i128, scale: scale as u8 }
}

pub fn fixed_from_parts(lo: i64, hi: i64, scale: u64) -> (f: Fixed)
    ensures
        f == parts_spec(lo, hi, scale),
{
    let low: i128 = (lo as u64) as i128;
    let high: i128 = (hi as i128) * 0x1_0000_0000_0000_0000i128;
    Fixed { coefficient: high + low, scale: scale as u8 }
}

/// `n` zeros.
pub open spec fn zeros(n: nat) -> Seq<char> {
    Seq::new(n, |i: int| '0')
}

/// The integer and fraction digits of `|coefficient|` at `scale`.
pub open spec fn fixed_parts(digits: Seq<char>, scale: nat) -> (Seq<char>, Seq<char>) {
    if scale == 0 {
        (digits, seq![])
    } else if digits.len() <= scale {
        ("0"@, zeros((scale - digits.len()) as nat) + digits)
    } else {
        (digits.take(digits.len() - scale), digits.skip(digits.len() - scale))
    }
}

/// The magnitude of a coefficient.
pub open spec fn magnitude(c: i128) -> nat {
    if c < 0 {
        (-c) as nat
    } else {
        c as nat
    }
}

/// How a fixed-point value is printed: a `-` when negative, the integer digits, and the
/// fraction digits after a `.` when the scale is not zero.
pub open spec fn fixed_text(f: Fixed) -> Seq<char> {
    let (int_part, frac_part) = fixed_parts(decimal(magnitude(f.coefficient)), f.scale as nat);
    (if f.coefficient < 0 { "-"@ } else { ""@ }) + int_part + (if frac_part.len() > 0 {
        "."@ + frac_part
    } else {
        ""@
    })
}

proof fn lemma_decimal_nonempty(n: nat)
    ensures
        decimal(n).len() >= 1,
    decreases n,
{
    if n >= 10 {
        lemma_decimal_nonempty(n / 10);
    }
}

pub fn format_fixed(f: Fixed) -> (s: String)
    ensures
        s@ == fixed_text(f),
{
    proof {
        reveal_strlit("-");
        reveal_strlit("0");
        reveal_strlit("0.");
        reveal_strlit(".");
        reveal_strlit("");
    }
    let mag: u128 = if f.coefficient < 0 {
        ((0 - (f.coefficient + 1)) as u128) + 1
    } else {
        f.coefficient as u128
    };
    assert(mag as nat == magnitude(f.coefficient));
    let ds = decimal_string(mag);
    let d = chars(ds.as_str());
    proof {
        lemma_decimal_nonempty(mag as nat);
    }
    let scale = f.scale as usize;
    let ghost parts = fixed_parts(d@, scale as nat);
    let mut s = if f.coefficient < 0 { String::from_str("-") } else { String::new() };
    let ghost sign = s@;
    if scale == 0 {
        s.append(ds.as_str());
        assert(s@ =~= fixed_text(f));
    } else if d.len() <= scale {
        s.append("0.");
        let mut k: usize = 0;
        while k < scale - d.len()
            invariant
                d.len() <= scale,
                k <= scale - d.len(),
                s@ == sign + "0."@ + zeros(k as nat),
            decreases scale - d.len() - k,
        {
            crate::text::push_char(&mut s, '0');
            k += 1;
            assert(s@ =~= sign + "0."@ + zeros(k as nat));
        }
        s.append(ds.as_str());
        assert(s@ =~= fixed_text(f));
    } else {
        let split = d.len() - scale;
        let int_part = ds.as_str().substring_char(0, split);
        let frac_part = ds.as_str().substring_char(split, d.len());
        assert(int_part@ =~= parts.0);
        assert(frac_part@ =~= parts.1);
        assert(parts.1.len() > 0);
        s.append(int_part);
        crate::text::push_char(&mut s, '.');
        s.append(frac_part);
        assert(s@ =~= sign + parts.0 + "."@ + parts.1);
        assert(s@ =~= fixed_text(f));
    }
    s
}

/// The exact product of two fixed-point values, when its scale fits a `u8` and its
/// coefficient an `i128`.
pub open spec fn fixed_mul_spec(a: Fixed, b: Fixed) -> Option<Fixed> {
    if a.scale + b.scale > u8::MAX || a.coefficient * b.coefficient > i128::MAX || a.coefficient
        * b.coefficient < i128::MIN {
        None
    } else {
        Some(
            Fixed {
                coefficient: (a.coefficient * b.coefficient) as i128,
                scale: (a.scale + b.scale) as u8,
            },
        )
    }
}

pub fn fixed_mul(a: Fixed, b: Fixed) -> (r: Option<Fixed>)
    ensures
        r == fixed_mul_spec(a, b),
{
    let scale = match a.scale.checked_add(b.scale) {
        Some(s) => s,
        None => return None,
    };
    let coefficient = match a.coefficient.checked_mul(b.coefficient) {
        Some(c) => c,
        None => return None,
    };
    Some(Fixed { coefficient, scale })
}


// ---------------------------------------------------------------------------
// Replay records as tape rows.

/// A fixed-point value as a recording stores it: the low and high 64 bits of the
/// coefficient, and the scale. Absent parts are `None`.
#[derive(Debug, Clone, Copy, PartialEq, Eq)]
pub struct FixedParts {
    pub lo: Option<i64>,
    pub hi: Option<i64>,
    pub scale: Option<u64>,
}

/// The value of stored parts: none without the low half or the scale; a missing high
/// half counts as 0.
pub open spec fn parts_value(p: FixedParts) -> Option<Fixed> {
    match (p.lo, p.scale) {
        (Some(lo), Some(scale)) => Some(parts_spec(lo, match p.hi { Some(h) => h, None => 0 }, scale)),
        _ => None,
    }
}

pub fn parts_fixed(p: &FixedParts) -> (r: Option<Fixed>)
    ensures
        r == parts_value(*p),
{
    match (p.lo, p.scale) {
        (Some(lo), Some(scale)) => {
            let hi = match p.hi {
                Some(h) => h,
                None => 0,
            };
            Some(fixed_from_parts(lo, hi, scale))
        },
        _ => None,
    }
}

/// The payload of a recorded event, as far as the replay view reads it.
#[derive(Debug, Clone, PartialEq, Eq)]
pub enum ReplayPayload {
    Trade {
        price: Option<FixedParts>,
        quantity: Option<FixedParts>,
        aggressor: Option<String>,
        trade_id: Option<String>,
    },
    Quote {
        bid_price: Option<FixedParts>,
        bid_quantity: Option<FixedParts>,
        ask_price: Option<FixedParts>,
        ask_quantity: Option<FixedParts>,
    },
    Other,
}

/// A recorded event envelope.
#[derive(Debug, Clone, PartialEq, Eq)]
pub struct ReplayEnvelope {
    pub payload: ReplayPayload,
    pub exchange_ts_ns: Option<i64>,
    pub receive_ts_ns: Option<i64>,
}

/// One row the replay scrubber shows.
#[derive(Debug, Clone, PartialEq, Eq)]
pub enum ReplayRow {
    Trade {
        price: String,
        quantity: String,
        notional: Option<String>,
        aggressor: String,
        trade_id: Option<String>,
        exchange_ts_ns: Option<i64>,
        receive_ts_ns: i64,
    },
    Quote {
        bid_price: String,
        bid_quantity: Option<String>,
        ask_price: String,
        ask_quantity: Option<String>,
        exchange_ts_ns: Option<i64>,
        receive_ts_ns: i64,
    },
}

/// A row with its text as character sequences.
pub enum RowView {
    Trade {
        price: Seq<char>,
        quantity: Seq<char>,
        notional: Option<Seq<char>>,
        aggressor: Seq<char>,
        trade_id: Option<Seq<char>>,
        exchange_ts_ns: Option<i64>,
        receive_ts_ns: i64,
    },
    Quote {
        bid_price: Seq<char>,
        bid_quantity: Option<Seq<char>>,
        ask_price: Seq<char>,
        ask_quantity: Option<Seq<char>>,
        exchange_ts_ns: Option<i64>,
        receive_ts_ns: i64,
    },
}

pub open spec fn row_view(r: ReplayRow) -> RowView {
    match r {
        ReplayRow::Trade { price, quantity, notional, aggressor, trade_id, exchange_ts_ns, receive_ts_ns } => RowView::Trade {
            price: price@,
            quantity: quantity@,
            notional: crate::config::opt_view(notional),
            aggressor: aggressor@,
            trade_id: crate::config::opt_view(trade_id),
            exchange_ts_ns,
            receive_ts_ns,
        },
        ReplayRow::Quote { bid_price, bid_quantity, ask_price, ask_quantity, exchange_ts_ns, receive_ts_ns } => RowView::Quote {
            bid_price: bid_price@,
            bid_quantity: crate::config::opt_view(bid_quantity),
            ask_price: ask_price@,
            ask_quantity: crate::config::opt_view(ask_quantity),
            exchange_ts_ns,
            receive_ts_ns,
        },
    }
}

/// The printed value of optional stored parts; none when absent or incomplete.
pub open spec fn opt_parts_text(p: Option<FixedParts>) -> Option<Seq<char>> {
    match p {
        Some(p) => match parts_value(p) {
            Some(f) => Some(fixed_text(f)),
            None => None,
        },
        None => None,
    }
}

/// The scrubber row of a recorded event: a trade needs its price and quantity, a quote
/// its bid and ask prices; any other event has no row. A trade's notional is price times
/// quantity when that fits; its aggressor defaults to `unknown`; a missing receive time
/// shows as 0.
pub open spec fn replay_row_spec(env: ReplayEnvelope) -> Option<RowView> {
    let receive = match env.receive_ts_ns { Some(t) => t, None => 0 };
    match env.payload {
        ReplayPayload::Trade { price, quantity, aggressor, trade_id } => {
            match (opt_parts_value(price), opt_parts_value(quantity)) {
                (Some(p), Some(q)) => Some(RowView::Trade {
                    price: fixed_text(p),
                    quantity: fixed_text(q),
                    notional: match fixed_mul_spec(p, q) { Some(n) => Some(fixed_text(n)), None => None },
                    aggressor: match aggressor { Some(a) => a@, None => "unknown"@ },
                    trade_id: crate::config::opt_view(trade_id),
                    exchange_ts_ns: env.exchange_ts_ns,
                    receive_ts_ns: receive,
                }),
                _ => None,
            }
        },
        ReplayPayload::Quote { bid_price, bid_quantity, ask_price, ask_quantity } => {
            match (opt_parts_value(bid_price), opt_parts_value(ask_price)) {
                (Some(b), Some(a)) => Some(RowView::Quote {
                    bid_price: fixed_text(b),
                    bid_quantity: opt_parts_text(bid_quantity),
                    ask_price: fixed_text(a),
                    ask_quantity: opt_parts_text(ask_quantity),
                    exchange_ts_ns: env.exchange_ts_ns,
                    receive_ts_ns: receive,
                }),
                _ => None,
            }
        },
        ReplayPayload::Other => None,
    }
}

pub open spec fn opt_parts_value(p: Option<FixedParts>) -> Option<Fixed> {
    match p {
        Some(p) => parts_value(p),
        None => None,
    }
}

fn opt_parts_fixed(p: &Option<FixedParts>) -> (r: Option<Fixed>)
    ensures
        r == opt_parts_value(*p),
{
    match p {
        Some(p) => parts_fixed(p),
        None => None,
    }
}

fn opt_parts_string(p: &Option<FixedParts>) -> (r: Option<String>)
    ensures
        crate::config::opt_view(r) == opt_parts_text(*p),
{
    match opt_parts_fixed(p) {
        Some(f) => Some(format_fixed(f)),
        None => None,
    }
}

fn clone_text(o: &Option<String>) -> (r: Option<String>)
    ensures
        crate::config::opt_view(r) == crate::config::opt_view(*o),
{
    match o {
        Some(s) => Some(s.clone()),
        None => None,
    }
}

/// The scrubber row of a recorded event (see `replay_row_spec`).
pub fn replay_row(env: &ReplayEnvelope) -> (r: Option<ReplayRow>)
    ensures
        match replay_row_spec(*env) {
            Some(v) => r is Some && row_view(r.unwrap()) == v,
            None => r is None,
        },
{
    let receive_ts_ns = match env.receive_ts_ns {
        Some(t) => t,
        None => 0,
    };
    match &env.payload {
        ReplayPayload::Trade { price, quantity, aggressor, trade_id } => {
            let p = match opt_parts_fixed(price) {
                Some(p) => p,
                None => return None,
            };
            let q = match opt_parts_fixed(quantity) {
                Some(q) => q,
                None => return None,
            };
            proof {
                reveal_strlit("unknown");
            }
            Some(ReplayRow::Trade {
                price: format_fixed(p),
                quantity: format_fixed(q),
                notional: match fixed_mul(p, q) {
                    Some(n) => Some(format_fixed(n)),
                    None => None,
                },
                aggressor: match aggressor {
                    Some(a) => a.clone(),
                    None => String::from_str("unknown"),
                },
                trade_id: clone_text(trade_id),
                exchange_ts_ns: env.exchange_ts_ns,
                receive_ts_ns,
            })
        },
        ReplayPayload::Quote { bid_price, bid_quantity, ask_price, ask_quantity } => {
            let b = match opt_parts_fixed(bid_price) {
                Some(b) => b,
                None => return None,
            };
            let a = match opt_parts_fixed(ask_price) {
                Some(a) => a,
                None => return None,
            };
            Some(ReplayRow::Quote {
                bid_price: format_fixed(b),
                bid_quantity: opt_parts_string(bid_quantity),
                ask_price: format_fixed(a),
                ask_quantity: opt_parts_string(ask_quantity),
                exchange_ts_ns: env.exchange_ts_ns,
                receive_ts_ns,
            })
        },
        ReplayPayload::Other => None,
    }
}

/// The rows of `records[start..end]` that have one, in order.
pub open spec fn rows_of(records: Seq<ReplayEnvelope>, start: int, end: int) -> Seq<RowView>
    decreases end - start,
{
    if end <= start {
        seq![]
    } else {
        let prev = rows_of(records, start, end - 1);
        match replay_row_spec(records[end - 1]) {
            Some(v) => prev.push(v),
            None => prev,
        }
    }
}

/// A page of a replay file's records: how many it holds, and the rows of the records in
/// the window an `offset` and a `limit` (clamped to `1..=500`) pick.
pub fn replay_page(records: &Vec<ReplayEnvelope>, offset: u64, limit: u64) -> (r: (u64, Vec<ReplayRow>))
    ensures
        r.0 == records@.len(),
        ({
            let (start, end) = replay_window_spec(records@.len() as usize, offset, replay_limit_spec(limit));
            r.1@.map_values(|x: ReplayRow| row_view(x)) == rows_of(records@, start as int, end as int)
        }),
{
    let limit = replay_limit(limit);
    let (start, end) = replay_window(records.len(), offset, limit);
    let mut rows: Vec<ReplayRow> = Vec::new();
    let mut i: usize = start;
    while i < end
        invariant
            start <= i <= end <= records@.len(),
            rows@.map_values(|x: ReplayRow| row_view(x)) == rows_of(records@, start as int, i as int),
        decreases end - i,
    {
        let ghost before = rows@;
        match replay_row(&records[i]) {
            Some(row) => {
                rows.push(row);
                assert(rows@.map_values(|x: ReplayRow| row_view(x)) =~= before.map_values(|x: ReplayRow| row_view(x)).push(
                    replay_row_spec(records@[i as int]).unwrap(),
                ));
            },
            None => {},
        }
        i += 1;
    }
    (records.len() as u64, rows)
}
} // verus!
