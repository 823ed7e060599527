//! The depth-of-market read: one row per price of the live book, highest first, with
//! the book's quantities there, the change since the previous depth sample, the notional
//! traded at that price within a time window, and the cumulative notional on each side.

use vstd::prelude::*;

use crate::plane::{
    depth_model, first_scales, fixed_add, fixed_difference, fixed_difference_spec, fixed_sum_spec, imbalance_spec, max_u8,
    quantity_imbalance_bps, rescale_up, rescaled, DepthLevel, DepthModel, StoredDepthSample,
};
use crate::replay::{fixed_mul, fixed_mul_spec, fixed_parts, fixed_text, format_fixed, magnitude, zeros};
use crate::view::ViewDomRow;
use crate::tape::{entry_views, EntryView, TapeEntry};
use crate::text::str_eq;
use crate::replay::Fixed;
use crate::text::{all_digits, chars, decimal, digit_value, digits_value, is_digit, lemma_decimal_digits, lemma_digits_value_monotone};

verus! {

// ---------------------------------------------------------------------------
// Comparing fixed-point values.

/// Whether two values are equal once brought to the finer of their scales; when one of
/// them cannot be brought there, whether scale and coefficient are the same.
pub open spec fn fixed_same(a: Fixed, b: Fixed) -> bool {
    let s = max_u8(a.scale, b.scale);
    match (rescaled(a, s), rescaled(b, s)) {
        (Some(x), Some(y)) => x.coefficient == y.coefficient,
        _ => a.scale == b.scale && a.coefficient == b.coefficient,
    }
}

/// Whether `a` is below `b` once both are brought to the finer of their scales; when one
/// of them cannot be brought there, whether `a` has the smaller scale, or the same scale
/// and the smaller coefficient.
pub open spec fn fixed_less(a: Fixed, b: Fixed) -> bool {
    let s = max_u8(a.scale, b.scale);
    match (rescaled(a, s), rescaled(b, s)) {
        (Some(x), Some(y)) => x.coefficient < y.coefficient,
        _ => a.scale < b.scale || (a.scale == b.scale && a.coefficient < b.coefficient),
    }
}

pub fn same_value(a: Fixed, b: Fixed) -> (r: bool)
    ensures
        r == fixed_same(a, b),
{
    let s = if a.scale >= b.scale { a.scale } else { b.scale };
    match (rescale_up(a, s), rescale_up(b, s)) {
        (Some(x), Some(y)) => x.coefficient == y.coefficient,
        _ => a.scale == b.scale && a.coefficient == b.coefficient,
    }
}

pub fn less_value(a: Fixed, b: Fixed) -> (r: bool)
    ensures
        r == fixed_less(a, b),
{
    let s = if a.scale >= b.scale { a.scale } else { b.scale };
    match (rescale_up(a, s), rescale_up(b, s)) {
        (Some(x), Some(y)) => x.coefficient < y.coefficient,
        _ => a.scale < b.scale || (a.scale == b.scale && a.coefficient < b.coefficient),
    }
}

// ---------------------------------------------------------------------------
// Reading a fixed-point value back from the tape's text.

/// The index of the first `.` in `s` at or after `i`; `s.len()` when there is none.
pub open spec fn dot_from(s: Seq<char>, i: int) -> int
    decreases s.len() - i,
{
    if i >= s.len() {
        s.len() as int
    } else if s[i] == '.' {
        i
    } else {
        dot_from(s, i + 1)
    }
}

/// How a fixed-point value reads from text: an optional `-`, one or more digits, then
/// optionally a `.` followed by one or more digits. The value is all the digits read as
/// one integer, the scale the number of digits after the point. None for any other
/// text, or when the scale does not fit a `u8` or the value an `i128`.
pub open spec fn parse_fixed_spec(t: Seq<char>) -> Option<Fixed> {
    let neg = t.len() > 0 && t[0] == '-';
    let body = if neg { t.drop_first() } else { t };
    let k = dot_from(body, 0);
    let int_part = body.take(k);
    let frac = if k < body.len() { body.skip(k + 1) } else { Seq::<char>::empty() };
    let v = digits_value(int_part + frac);
    let c: int = if neg { -(v as int) } else { v as int };
    if int_part.len() == 0 || !all_digits(int_part) || (k < body.len() && (frac.len() == 0 || !all_digits(frac)))
        || frac.len() > u8::MAX || c < i128::MIN || c > i128::MAX {
        None
    } else {
        Some(Fixed { coefficient: c as i128, scale: frac.len() as u8 })
    }
}

proof fn lemma_dot_found(s: Seq<char>, i: int, k: int)
    requires
        0 <= i <= k <= s.len(),
        forall|j: int| i <= j < k ==> s[j] != '.',
        k == s.len() || s[k] == '.',
    ensures
        dot_from(s, i) == k,
    decreases k - i,
{
    if i < k {
        lemma_dot_found(s, i + 1, k);
    }
}

proof fn lemma_all_digits_concat(a: Seq<char>, b: Seq<char>)
    ensures
        all_digits(a + b) <==> (all_digits(a) && all_digits(b)),
{
    if all_digits(a + b) {
        assert forall|j: int| 0 <= j < a.len() implies is_digit(#[trigger] a[j]) by {
            assert((a + b)[j] == a[j]);
        }
        assert forall|j: int| 0 <= j < b.len() implies is_digit(#[trigger] b[j]) by {
            assert((a + b)[a.len() + j] == b[j]);
        }
    }
    if all_digits(a) && all_digits(b) {
        assert forall|j: int| 0 <= j < (a + b).len() implies is_digit(#[trigger] (a + b)[j]) by {
            if j < a.len() {
                assert((a + b)[j] == a[j]);
            } else {
                assert((a + b)[j] == b[j - a.len()]);
            }
        }
    }
}

/// The characters `t[from..to]`.
fn char_range(t: &Vec<char>, from: usize, to: usize) -> (r: Vec<char>)
    requires
        from <= to <= t.len(),
    ensures
        r@ == t@.subrange(from as int, to as int),
{
    let mut r: Vec<char> = Vec::new();
    let mut i: usize = from;
    while i < to
        invariant
            from <= i <= to,
            to <= t.len(),
            r@ == t@.subrange(from as int, i as int),
        decreases to - i,
    {
        r.push(t[i]);
        i += 1;
        assert(r@ =~= t@.subrange(from as int, i as int));
    }
    r
}

/// The value of a run of digits, when it is all digits and fits a `u128`.
fn digits_u128(d: &Vec<char>) -> (r: Option<u128>)
    ensures
        r == (if all_digits(d@) && digits_value(d@) <= u128::MAX { Some(digits_value(d@) as u128) } else { None::<u128> }),
{
    let mut acc: u128 = 0;
    let mut i: usize = 0;
    while i < d.len()
        invariant
            i <= d@.len(),
            all_digits(d@.take(i as int)),
            acc as nat == digits_value(d@.take(i as int)),
        decreases d.len() - i,
    {
        let c = d[i];
        assert(d@.take(i + 1).drop_last() =~= d@.take(i as int));
        assert(d@.take(i + 1).last() == c);
        if !('0' <= c && c <= '9') {
            assert(!is_digit(d@[i as int]));
            return None;
        }
        let v: u128 = ((c as u32) - ('0' as u32)) as u128;
        assert(v == digit_value(c));
        let next = match acc.checked_mul(10) {
            Some(x) => x.checked_add(v),
            None => None,
        };
        match next {
            Some(x) => acc = x,
            None => {
                proof {
                    assert(digits_value(d@.take(i + 1)) == acc * 10 + v);
                    if all_digits(d@) {
                        lemma_digits_value_monotone(d@, i + 1);
                    }
                }
                return None;
            },
        }
        i += 1;
        assert(all_digits(d@.take(i as int)));
    }
    assert(d@.take(d@.len() as int) =~= d@);
    Some(acc)
}

proof fn lemma_zeros_value(z: Seq<char>)
    requires
        forall|i: int| 0 <= i < z.len() ==> z[i] == '0',
    ensures
        digits_value(z) == 0,
    decreases z.len(),
{
    if z.len() > 0 {
        lemma_zeros_value(z.drop_last());
    }
}

proof fn lemma_leading_zeros(z: Seq<char>, s: Seq<char>)
    requires
        forall|i: int| 0 <= i < z.len() ==> z[i] == '0',
    ensures
        digits_value(z + s) == digits_value(s),
    decreases s.len(),
{
    if s.len() == 0 {
        assert(z + s =~= z);
        lemma_zeros_value(z);
    } else {
        assert((z + s).drop_last() =~= z + s.drop_last());
        lemma_leading_zeros(z, s.drop_last());
    }
}

proof fn lemma_no_dot(s: Seq<char>)
    requires
        all_digits(s),
    ensures
        forall|j: int| 0 <= j < s.len() ==> s[j] != '.',
{
    assert forall|j: int| 0 <= j < s.len() implies s[j] != '.' by {
        assert(is_digit(s[j]));
    }
}

/// Text made of an optional `-`, a run of digits, and a `.` with more digits when there
/// are any, reads as the digits' value with that sign at the fraction's length as scale.
proof fn lemma_parse_parts(t: Seq<char>, neg: bool, ip: Seq<char>, fp: Seq<char>)
    requires
        t == (if neg { seq!['-'] } else { Seq::<char>::empty() }) + ip + (if fp.len() > 0 { seq!['.'] + fp } else { Seq::<char>::empty() }),
        ip.len() >= 1,
        all_digits(ip),
        all_digits(fp),
        fp.len() <= u8::MAX,
        (if neg { -(digits_value(ip + fp) as int) } else { digits_value(ip + fp) as int }) >= i128::MIN,
        (if neg { -(digits_value(ip + fp) as int) } else { digits_value(ip + fp) as int }) <= i128::MAX,
    ensures
        parse_fixed_spec(t) == Some(
            Fixed {
                coefficient: (if neg { -(digits_value(ip + fp) as int) } else { digits_value(ip + fp) as int }) as i128,
                scale: fp.len() as u8,
            },
        ),
{
    let rest = if fp.len() > 0 { seq!['.'] + fp } else { Seq::<char>::empty() };
    let body = ip + rest;
    assert(is_digit(ip[0]));
    assert(body[0] == ip[0]);
    if neg {
        assert(t =~= seq!['-'] + body);
        assert(t.drop_first() =~= body);
    } else {
        assert(t =~= body);
    }
    assert((t.len() > 0 && t[0] == '-') == neg);
    lemma_no_dot(ip);
    if fp.len() > 0 {
        assert(body[ip.len() as int] == '.');
        lemma_dot_found(body, 0, ip.len() as int);
        assert(body.take(ip.len() as int) =~= ip);
        assert(body.skip(ip.len() as int + 1) =~= fp);
    } else {
        assert(body =~= ip);
        lemma_dot_found(body, 0, ip.len() as int);
        assert(body.take(ip.len() as int) =~= ip);
    }
}

/// A value printed for the tape reads back as itself.
pub proof fn lemma_tape_text_reads_back(f: Fixed)
    ensures
        parse_fixed_spec(fixed_text(f)) == Some(f),
{
    reveal_strlit("-");
    reveal_strlit("0");
    reveal_strlit(".");
    reveal_strlit("");
    let mag = magnitude(f.coefficient);
    let d = decimal(mag);
    lemma_decimal_digits(mag);
    let scale = f.scale as nat;
    let (ip, fp) = fixed_parts(d, scale);
    let neg = f.coefficient < 0;
    let t = fixed_text(f);
    assert(t =~= (if neg { seq!['-'] } else { Seq::<char>::empty() }) + ip + (if fp.len() > 0 {
        seq!['.'] + fp
    } else {
        Seq::<char>::empty()
    }));
    let zs = zeros((scale - d.len()) as nat);
    if scale == 0 {
        assert(ip + fp =~= d);
    } else if d.len() <= scale {
        assert(ip =~= seq!['0']);
        assert(fp =~= zs + d);
        lemma_all_digits_concat(zs, d);
        assert(ip + fp =~= (seq!['0'] + zs) + d);
        lemma_leading_zeros(seq!['0'] + zs, d);
    } else {
        assert(ip =~= d.take(d.len() - scale));
        assert(fp =~= d.skip(d.len() - scale));
        assert(ip + fp =~= d);
    }
    assert(digits_value(ip + fp) == mag);
    lemma_parse_parts(t, neg, ip, fp);
}

/// Reads a fixed-point value back from text: see `parse_fixed_spec`.
pub fn parse_fixed(s: &str) -> (r: Option<Fixed>)
    ensures
        r == parse_fixed_spec(s@),
{
    let t = chars(s);
    let neg = t.len() > 0 && t[0] == '-';
    let start: usize = if neg { 1 } else { 0 };
    let ghost body = if neg { t@.drop_first() } else { t@ };
    assert(body =~= t@.skip(start as int));
    let mut k: usize = start;
    while k < t.len() && t[k] != '.'
        invariant
            start <= k <= t.len(),
            body == t@.skip(start as int),
            forall|j: int| start <= j < k ==> t@[j] != '.',
        decreases t.len() - k,
    {
        k += 1;
    }
    proof {
        lemma_dot_found(body, 0, k - start);
    }
    let has_dot = k < t.len();
    let int_part = char_range(&t, start, k);
    let frac = if has_dot { char_range(&t, k + 1, t.len()) } else { Vec::new() };
    assert(int_part@ =~= body.take(k - start));
    assert(has_dot ==> frac@ =~= body.skip(k - start + 1));
    if int_part.len() == 0 || (has_dot && frac.len() == 0) || frac.len() > 255 {
        return None;
    }
    let mut digits = int_part.clone();
    let mut more = frac.clone();
    digits.append(&mut more);
    assert(digits@ =~= int_part@ + frac@);
    proof {
        lemma_all_digits_concat(int_part@, frac@);
    }
    let acc = match digits_u128(&digits) {
        Some(v) => v,
        None => return None,
    };
    let limit: u128 = 0x8000_0000_0000_0000_0000_0000_0000_0000;
    if neg {
        if acc > limit {
            return None;
        }
        let c: i128 = if acc == limit { i128::MIN } else { 0 - (acc as i128) };
        Some(Fixed { coefficient: c, scale: frac.len() as u8 })
    } else {
        if acc >= limit {
            return None;
        }
        Some(Fixed { coefficient: acc as i128, scale: frac.len() as u8 })
    }
}

// ---------------------------------------------------------------------------
// The price column.

/// Where `x` goes in `s` (highest first): just after the last element it is not above.
pub open spec fn insert_at(s: Seq<Fixed>, x: Fixed) -> int
    decreases s.len(),
{
    if s.len() == 0 {
        0
    } else if fixed_less(s.last(), x) {
        insert_at(s.drop_last(), x)
    } else {
        s.len() as int
    }
}

pub open spec fn insert_desc(s: Seq<Fixed>, x: Fixed) -> Seq<Fixed> {
    let j = insert_at(s, x);
    s.take(j).push(x) + s.skip(j)
}

/// `s` sorted highest first, values that compare equal keeping their order.
pub open spec fn sort_desc(s: Seq<Fixed>) -> Seq<Fixed>
    decreases s.len(),
{
    if s.len() == 0 {
        s
    } else {
        insert_desc(sort_desc(s.drop_last()), s.last())
    }
}

/// `s` without each value that is the same as the last one kept before it.
pub open spec fn dedup_same(s: Seq<Fixed>) -> Seq<Fixed>
    decreases s.len(),
{
    if s.len() == 0 {
        s
    } else {
        let d = dedup_same(s.drop_last());
        if d.len() > 0 && fixed_same(s.last(), d.last()) {
            d
        } else {
            d.push(s.last())
        }
    }
}

pub open spec fn level_prices(levels: Seq<DepthLevel>) -> Seq<Fixed> {
    levels.map_values(|l: DepthLevel| l.price)
}

/// The prices of a book's levels, bids then asks, sorted highest first with repeats of a
/// price dropped.
pub open spec fn dom_prices(bids: Seq<DepthLevel>, asks: Seq<DepthLevel>) -> Seq<Fixed> {
    dedup_same(sort_desc(level_prices(bids + asks)))
}

proof fn lemma_insert_at_bounds(s: Seq<Fixed>, x: Fixed)
    ensures
        0 <= insert_at(s, x) <= s.len(),
    decreases s.len(),
{
    if s.len() > 0 && fixed_less(s.last(), x) {
        lemma_insert_at_bounds(s.drop_last(), x);
    }
}

/// Every value has the given scale.
pub open spec fn one_scale(s: Seq<Fixed>, scale: u8) -> bool {
    forall|i: int| 0 <= i < s.len() ==> (#[trigger] s[i]).scale == scale
}

/// Coefficients never rise from one value to a later one.
pub open spec fn descending(s: Seq<Fixed>) -> bool {
    forall|i: int, j: int| 0 <= i < j < s.len() ==> (#[trigger] s[j]).coefficient <= (#[trigger] s[i]).coefficient
}

proof fn lemma_same_scale_order(a: Fixed, b: Fixed)
    requires
        a.scale == b.scale,
    ensures
        fixed_less(a, b) == (a.coefficient < b.coefficient),
        fixed_same(a, b) == (a.coefficient == b.coefficient),
{
    assert(crate::plane::pow10(0) == 1);
    assert(rescaled(a, a.scale) == Some(a));
    assert(rescaled(b, b.scale) == Some(b));
}

proof fn lemma_insert_at_splits(s: Seq<Fixed>, x: Fixed, scale: u8)
    requires
        one_scale(s, scale),
        x.scale == scale,
    ensures
        0 <= insert_at(s, x) <= s.len(),
        forall|k: int| insert_at(s, x) <= k < s.len() ==> (#[trigger] s[k]).coefficient < x.coefficient,
        insert_at(s, x) > 0 ==> s[insert_at(s, x) - 1].coefficient >= x.coefficient,
    decreases s.len(),
{
    if s.len() > 0 {
        lemma_same_scale_order(s.last(), x);
        if fixed_less(s.last(), x) {
            let t = s.drop_last();
            lemma_insert_at_splits(t, x, scale);
            assert forall|k: int| insert_at(s, x) <= k < s.len() implies (#[trigger] s[k]).coefficient < x.coefficient by {
                if k < t.len() {
                    assert(s[k] == t[k]);
                }
            }
            if insert_at(s, x) > 0 {
                assert(s[insert_at(s, x) - 1] == t[insert_at(t, x) - 1]);
            }
        }
    }
}

proof fn lemma_insert_desc_keeps_order(s: Seq<Fixed>, x: Fixed, scale: u8)
    requires
        one_scale(s, scale),
        x.scale == scale,
        descending(s),
    ensures
        descending(insert_desc(s, x)),
        one_scale(insert_desc(s, x), scale),
        forall|y: Fixed| insert_desc(s, x).contains(y) <==> (s.contains(y) || y == x),
{
    lemma_insert_at_splits(s, x, scale);
    let j = insert_at(s, x);
    let r = insert_desc(s, x);
    assert(r.len() == s.len() + 1);
    assert forall|i: int| 0 <= i < r.len() implies #[trigger] r[i] == (if i < j { s[i] } else if i == j { x } else { s[i - 1] }) by {}
    assert forall|i: int, k: int| 0 <= i < k < r.len() implies (#[trigger] r[k]).coefficient <= (#[trigger] r[i]).coefficient by {
        if i < j && k == j {
            assert(s[i].coefficient >= s[j - 1].coefficient);
        } else if i == j && k > j {
            assert(s[k - 1].coefficient < x.coefficient);
        } else if i < j && k > j {
            assert(s[k - 1].coefficient <= s[i].coefficient);
        }
    }
    assert forall|i: int| 0 <= i < r.len() implies (#[trigger] r[i]).scale == scale by {}
    assert forall|y: Fixed| r.contains(y) <==> (s.contains(y) || y == x) by {
        if r.contains(y) {
            let i = choose|i: int| 0 <= i < r.len() && r[i] == y;
            if i < j {
                assert(s[i] == y);
            } else if i > j {
                assert(s[i - 1] == y);
            }
        }
        if s.contains(y) {
            let i = choose|i: int| 0 <= i < s.len() && s[i] == y;
            if i < j {
                assert(r[i] == y);
            } else {
                assert(r[i + 1] == y);
            }
        }
        if y == x {
            assert(r[j] == y);
        }
    }
}

proof fn lemma_sort_desc_orders(s: Seq<Fixed>, scale: u8)
    requires
        one_scale(s, scale),
    ensures
        descending(sort_desc(s)),
        one_scale(sort_desc(s), scale),
        forall|y: Fixed| sort_desc(s).contains(y) <==> s.contains(y),
    decreases s.len(),
{
    if s.len() > 0 {
        let t = s.drop_last();
        lemma_sort_desc_orders(t, scale);
        lemma_insert_desc_keeps_order(sort_desc(t), s.last(), scale);
        assert forall|y: Fixed| s.contains(y) <==> (t.contains(y) || y == s.last()) by {
            if s.contains(y) {
                let i = choose|i: int| 0 <= i < s.len() && s[i] == y;
                if i < t.len() {
                    assert(t[i] == y);
                }
            }
            if t.contains(y) {
                let i = choose|i: int| 0 <= i < t.len() && t[i] == y;
                assert(s[i] == y);
            }
        }
    }
}

proof fn lemma_push_contains(d: Seq<Fixed>, x: Fixed)
    ensures
        forall|y: Fixed| d.push(x).contains(y) <==> (d.contains(y) || y == x),
{
    assert forall|y: Fixed| d.push(x).contains(y) <==> (d.contains(y) || y == x) by {
        if d.push(x).contains(y) {
            let i = choose|i: int| 0 <= i < d.push(x).len() && d.push(x)[i] == y;
            if i < d.len() {
                assert(d[i] == y);
            }
        }
        if d.contains(y) {
            let i = choose|i: int| 0 <= i < d.len() && d[i] == y;
            assert(d.push(x)[i] == y);
        }
        if y == x {
            assert(d.push(x)[d.len() as int] == y);
        }
    }
}

proof fn lemma_dedup_strict(s: Seq<Fixed>, scale: u8)
    requires
        one_scale(s, scale),
        descending(s),
    ensures
        forall|i: int, j: int| 0 <= i < j < dedup_same(s).len() ==> (#[trigger] dedup_same(s)[j]).coefficient
            < (#[trigger] dedup_same(s)[i]).coefficient,
        one_scale(dedup_same(s), scale),
        forall|y: Fixed| dedup_same(s).contains(y) <==> s.contains(y),
    decreases s.len(),
{
    if s.len() > 0 {
        let t = s.drop_last();
        let x = s.last();
        assert(one_scale(t, scale));
        assert(descending(t));
        lemma_dedup_strict(t, scale);
        let d = dedup_same(t);
        lemma_push_contains(d, x);
        assert forall|y: Fixed| s.contains(y) <==> (t.contains(y) || y == x) by {
            if s.contains(y) {
                let i = choose|i: int| 0 <= i < s.len() && s[i] == y;
                if i < t.len() {
                    assert(t[i] == y);
                }
            }
            if t.contains(y) {
                let i = choose|i: int| 0 <= i < t.len() && t[i] == y;
                assert(s[i] == y);
            }
        }
        if d.len() > 0 {
            let last = d.last();
            assert(d[d.len() - 1] == last);
            assert(d.contains(last));
            assert(t.contains(last));
            let i = choose|i: int| 0 <= i < t.len() && t[i] == last;
            assert(t[i] == last);
            assert(s[i] == t[i]);
            assert(x.coefficient <= last.coefficient);
            lemma_same_scale_order(x, last);
            if fixed_same(x, last) {
                assert(x == last);
                assert(dedup_same(s) == d);
                assert forall|y: Fixed| d.contains(y) <==> s.contains(y) by {
                    if y == x {
                        assert(d.contains(last));
                    }
                }
            } else {
                let r = d.push(x);
                assert(dedup_same(s) == r);
                assert(forall|y: Fixed| r.contains(y) <==> s.contains(y));
                assert forall|a: int, b: int| 0 <= a < b < r.len() implies (#[trigger] r[b]).coefficient < (#[trigger] r[a]).coefficient by {
                    if b == d.len() {
                        if a < d.len() - 1 {
                            assert(d[d.len() - 1].coefficient < d[a].coefficient);
                        }
                    }
                }
            }
        } else {
            assert(dedup_same(s) == d.push(x));
            assert(forall|y: Fixed| d.push(x).contains(y) <==> s.contains(y));
        }
    }
}

/// When a book's prices all have one scale, the depth-of-market prices are exactly the
/// book's prices, each once, running strictly from highest to lowest.
pub proof fn lemma_dom_prices_descend(bids: Seq<DepthLevel>, asks: Seq<DepthLevel>, scale: u8)
    requires
        forall|i: int| 0 <= i < (bids + asks).len() ==> (#[trigger] (bids + asks)[i]).price.scale == scale,
    ensures
        forall|i: int, j: int| 0 <= i < j < dom_prices(bids, asks).len() ==> (#[trigger] dom_prices(bids, asks)[j]).coefficient
            < (#[trigger] dom_prices(bids, asks)[i]).coefficient,
        forall|y: Fixed| dom_prices(bids, asks).contains(y) <==> level_prices(bids + asks).contains(y),
{
    let all = level_prices(bids + asks);
    assert forall|i: int| 0 <= i < all.len() implies (#[trigger] all[i]).scale == scale by {
        assert(all[i] == (bids + asks)[i].price);
    }
    lemma_sort_desc_orders(all, scale);
    lemma_dedup_strict(sort_desc(all), scale);
}

/// Inserts `x` into `v`, kept highest first: see `insert_desc`.
fn insert_price(v: &mut Vec<Fixed>, x: Fixed)
    ensures
        final(v)@ == insert_desc(old(v)@, x),
{
    let ghost s = v@;
    let mut j: usize = v.len();
    assert(s.take(j as int) =~= s);
    while j > 0 && less_value(v[j - 1], x)
        invariant
            j <= s.len(),
            v@ == s,
            insert_at(s, x) == insert_at(s.take(j as int), x),
        decreases j,
    {
        assert(s.take(j as int).drop_last() =~= s.take(j - 1));
        assert(s.take(j as int).last() == s[j - 1]);
        j -= 1;
    }
    proof {
        if j > 0 {
            assert(s.take(j as int).last() == s[j - 1]);
        }
        lemma_insert_at_bounds(s, x);
    }
    assert(insert_at(s, x) == j);
    v.insert(j, x);
    assert(v@ =~= s.take(j as int).push(x) + s.skip(j as int));
}

/// The prices of a book's levels, highest first, each once: see `dom_prices`.
pub fn book_prices(bids: &Vec<DepthLevel>, asks: &Vec<DepthLevel>) -> (r: Vec<Fixed>)
    ensures
        r@ == dom_prices(bids@, asks@),
{
    let ghost all = level_prices(bids@ + asks@);
    let mut sorted: Vec<Fixed> = Vec::new();
    let mut i: usize = 0;
    assert(all.take(0) =~= Seq::<Fixed>::empty());
    while i < bids.len()
        invariant
            all == level_prices(bids@ + asks@),
            all.len() == bids@.len() + asks@.len(),
            i <= bids@.len(),
            sorted@ == sort_desc(all.take(i as int)),
        decreases bids.len() - i,
    {
        let x = bids[i].price;
        assert(x == all[i as int]);
        assert(all.take(i + 1).drop_last() =~= all.take(i as int));
        assert(all.take(i + 1).last() == x);
        insert_price(&mut sorted, x);
        i += 1;
    }
    let mut j: usize = 0;
    while j < asks.len()
        invariant
            all == level_prices(bids@ + asks@),
            all.len() == bids@.len() + asks@.len(),
            j <= asks@.len(),
            sorted@ == sort_desc(all.take(bids@.len() + j)),
        decreases asks.len() - j,
    {
        let x = asks[j].price;
        let ghost at = bids@.len() + j;
        assert(x == all[at]);
        assert(all.take(at + 1).drop_last() =~= all.take(at));
        assert(all.take(at + 1).last() == x);
        insert_price(&mut sorted, x);
        j += 1;
    }
    let ghost n = all.len();
    assert(all.take(n as int) =~= all);
    let ghost sd = sorted@;
    let mut out: Vec<Fixed> = Vec::new();
    let mut k: usize = 0;
    assert(sd.take(0) =~= Seq::<Fixed>::empty());
    while k < sorted.len()
        invariant
            sd == sorted@,
            k <= sd.len(),
            out@ == dedup_same(sd.take(k as int)),
        decreases sorted.len() - k,
    {
        let x = sorted[k];
        assert(sd.take(k + 1).drop_last() =~= sd.take(k as int));
        assert(sd.take(k + 1).last() == x);
        let keep = out.len() == 0 || !same_value(x, out[out.len() - 1]);
        if keep {
            out.push(x);
        }
        k += 1;
    }
    assert(sd.take(sd.len() as int) =~= sd);
    out
}

// ---------------------------------------------------------------------------
// Quantities at a price.

/// The quantity of the first level at or after `i` whose price is the same as `p`.
pub open spec fn quantity_from(levels: Seq<DepthLevel>, p: Fixed, i: int) -> Option<Fixed>
    decreases levels.len() - i,
{
    if i >= levels.len() {
        None
    } else if fixed_same(levels[i].price, p) {
        Some(levels[i].quantity)
    } else {
        quantity_from(levels, p, i + 1)
    }
}

/// The quantity the book shows at `p`: its first level there, else zero at `scale`.
pub open spec fn book_quantity(levels: Seq<DepthLevel>, p: Fixed, scale: u8) -> Fixed {
    match quantity_from(levels, p, 0) {
        Some(q) => q,
        None => Fixed { coefficient: 0, scale },
    }
}

pub fn book_quantity_at(levels: &Vec<DepthLevel>, p: Fixed, scale: u8) -> (r: Fixed)
    ensures
        r == book_quantity(levels@, p, scale),
{
    let mut i: usize = 0;
    while i < levels.len()
        invariant
            i <= levels@.len(),
            quantity_from(levels@, p, 0) == quantity_from(levels@, p, i as int),
        decreases levels.len() - i,
    {
        if same_value(levels[i].price, p) {
            return levels[i].quantity;
        }
        i += 1;
    }
    Fixed { coefficient: 0, scale }
}

/// In a depth sample's (price, quantity) coefficients, the quantity of the first level
/// at or after `i` whose price, at the sample's price scale, is the same as `p`.
pub open spec fn sample_quantity_from(levels: Seq<(i128, i128)>, price_scale: u8, p: Fixed, i: int) -> Option<i128>
    decreases levels.len() - i,
{
    if i >= levels.len() {
        None
    } else if fixed_same(Fixed { coefficient: levels[i].0, scale: price_scale }, p) {
        Some(levels[i].1)
    } else {
        sample_quantity_from(levels, price_scale, p, i + 1)
    }
}

/// The quantity a depth sample shows at `p` on the bid (`bid`) or ask side: its first
/// level there at the sample's quantity scale; zero at `scale` when there is none or no
/// sample.
pub open spec fn sample_quantity(sample: Option<DepthModel>, bid: bool, p: Fixed, scale: u8) -> Fixed {
    match sample {
        None => Fixed { coefficient: 0, scale },
        Some(d) => match sample_quantity_from(if bid { d.bids } else { d.asks }, d.price_scale, p, 0) {
            Some(q) => Fixed { coefficient: q, scale: d.quantity_scale },
            None => Fixed { coefficient: 0, scale },
        },
    }
}

pub open spec fn sample_model(sample: Option<&StoredDepthSample>) -> Option<DepthModel> {
    match sample {
        Some(d) => Some(depth_model(*d)),
        None => None,
    }
}

pub fn sample_quantity_at(sample: Option<&StoredDepthSample>, bid: bool, p: Fixed, scale: u8) -> (r: Fixed)
    ensures
        r == sample_quantity(sample_model(sample), bid, p, scale),
{
    let d = match sample {
        Some(d) => d,
        None => return Fixed { coefficient: 0, scale },
    };
    let levels = if bid { &d.bids } else { &d.asks };
    let mut i: usize = 0;
    while i < levels.len()
        invariant
            i <= levels@.len(),
            sample == Some(d),
            levels@ == (if bid { d.bids@ } else { d.asks@ }),
            sample_quantity_from(levels@, d.price_scale, p, 0) == sample_quantity_from(levels@, d.price_scale, p, i as int),
        decreases levels.len() - i,
    {
        let (pc, qc) = levels[i];
        assert(levels@[i as int] == (pc, qc));
        if same_value(Fixed { coefficient: pc, scale: d.price_scale }, p) {
            assert(sample_model(sample) == Some(depth_model(*d)));
            assert(levels@ == (if bid { depth_model(*d).bids } else { depth_model(*d).asks }));
            return Fixed { coefficient: qc, scale: d.quantity_scale };
        }
        i += 1;
    }
    Fixed { coefficient: 0, scale }
}

/// Whether a level is counted in the cumulative notional at `p`: a bid at or above it,
/// an ask at or below it.
pub open spec fn counts_toward(l: DepthLevel, p: Fixed, bid: bool) -> bool {
    if bid {
        !fixed_less(l.price, p)
    } else {
        !fixed_less(p, l.price)
    }
}

/// The notional (price times quantity) of the counted levels among the first `n`, added
/// in book order from `zero`; none when a product or a sum does not fit.
pub open spec fn cumulative_upto(levels: Seq<DepthLevel>, p: Fixed, bid: bool, zero: Fixed, n: nat) -> Option<Fixed>
    decreases n,
{
    if n == 0 {
        Some(zero)
    } else {
        match cumulative_upto(levels, p, bid, zero, (n - 1) as nat) {
            None => None,
            Some(sum) => {
                let l = levels[n - 1];
                if counts_toward(l, p, bid) {
                    match fixed_mul_spec(l.price, l.quantity) {
                        None => None,
                        Some(x) => fixed_sum_spec(sum, x),
                    }
                } else {
                    Some(sum)
                }
            },
        }
    }
}

proof fn lemma_cumulative_ignores_later_levels(levels: Seq<DepthLevel>, l: DepthLevel, p: Fixed, bid: bool, zero: Fixed, n: nat)
    requires
        n <= levels.len(),
    ensures
        cumulative_upto(levels.push(l), p, bid, zero, n) == cumulative_upto(levels, p, bid, zero, n),
    decreases n,
{
    if n > 0 {
        lemma_cumulative_ignores_later_levels(levels, l, p, bid, zero, (n - 1) as nat);
        assert(levels.push(l)[n - 1] == levels[n - 1]);
    }
}

/// One more level under the book changes the cumulative notional at `p` only when it is
/// a bid at or above `p` (on the bid side) or an ask at or below `p` (on the ask side):
/// then its price times its quantity adds to the sum, or the read fails when the product
/// or the sum does not fit. Any other level leaves the sum as it was.
pub proof fn lemma_cumulative_counts_levels_through_the_price(
    levels: Seq<DepthLevel>,
    l: DepthLevel,
    p: Fixed,
    bid: bool,
    zero: Fixed,
    sum: Fixed,
)
    requires
        cumulative_upto(levels, p, bid, zero, levels.len()) == Some(sum),
    ensures
        (if bid { fixed_less(l.price, p) } else { fixed_less(p, l.price) }) ==> cumulative_upto(
            levels.push(l),
            p,
            bid,
            zero,
            levels.len() + 1,
        ) == Some(sum),
        !(if bid { fixed_less(l.price, p) } else { fixed_less(p, l.price) }) ==> cumulative_upto(
            levels.push(l),
            p,
            bid,
            zero,
            levels.len() + 1,
        ) == match fixed_mul_spec(l.price, l.quantity) {
            Some(x) => fixed_sum_spec(sum, x),
            None => None,
        },
{
    lemma_cumulative_ignores_later_levels(levels, l, p, bid, zero, levels.len());
    assert(levels.push(l)[levels.len() as int] == l);
}

/// The quantity read at a price is that of the first level at or after `i` whose price
/// is the same value, and none when no level there has it.
pub proof fn lemma_quantity_is_first_level_at_price(levels: Seq<DepthLevel>, p: Fixed, i: int)
    requires
        0 <= i,
    ensures
        quantity_from(levels, p, i) matches Some(q) ==> exists|k: int| i <= k < levels.len() && fixed_same(
            (#[trigger] levels[k]).price,
            p,
        ) && levels[k].quantity == q && forall|j: int| i <= j < k ==> !fixed_same((#[trigger] levels[j]).price, p),
        quantity_from(levels, p, i) is None ==> forall|j: int| i <= j < levels.len() ==> !fixed_same(
            (#[trigger] levels[j]).price,
            p,
        ),
    decreases levels.len() - i,
{
    if i < levels.len() {
        lemma_quantity_is_first_level_at_price(levels, p, i + 1);
        if !fixed_same(levels[i].price, p) {
            if quantity_from(levels, p, i + 1) is Some {
                let k = choose|k: int| i + 1 <= k < levels.len() && fixed_same((#[trigger] levels[k]).price, p)
                    && levels[k].quantity == quantity_from(levels, p, i + 1)->Some_0 && forall|j: int| i + 1 <= j < k
                    ==> !fixed_same((#[trigger] levels[j]).price, p);
                assert(i <= k < levels.len());
            }
        } else {
            assert(fixed_same(levels[i].price, p) && levels[i].quantity == quantity_from(levels, p, i)->Some_0);
        }
    }
}

pub fn cumulative_notional(levels: &Vec<DepthLevel>, p: Fixed, bid: bool, zero: Fixed) -> (r: Option<Fixed>)
    ensures
        r == cumulative_upto(levels@, p, bid, zero, levels@.len()),
{
    let mut sum = zero;
    let mut i: usize = 0;
    while i < levels.len()
        invariant
            i <= levels@.len(),
            cumulative_upto(levels@, p, bid, zero, i as nat) == Some(sum),
        decreases levels.len() - i,
    {
        let l = levels[i];
        let counted = if bid { !less_value(l.price, p) } else { !less_value(p, l.price) };
        if counted {
            let x = match fixed_mul(l.price, l.quantity) {
                Some(x) => x,
                None => {
                    proof {
                        lemma_cumulative_stays_none(levels@, p, bid, zero, (i + 1) as nat, levels@.len());
                    }
                    return None;
                },
            };
            sum = match fixed_add(sum, x) {
                Some(v) => v,
                None => {
                    proof {
                        lemma_cumulative_stays_none(levels@, p, bid, zero, (i + 1) as nat, levels@.len());
                    }
                    return None;
                },
            };
        }
        i += 1;
    }
    Some(sum)
}

proof fn lemma_cumulative_stays_none(levels: Seq<DepthLevel>, p: Fixed, bid: bool, zero: Fixed, k: nat, n: nat)
    requires
        k <= n,
        cumulative_upto(levels, p, bid, zero, k) is None,
    ensures
        cumulative_upto(levels, p, bid, zero, n) is None,
    decreases n - k,
{
    if k < n {
        lemma_cumulative_stays_none(levels, p, bid, zero, k + 1, n);
    }
}

// ---------------------------------------------------------------------------
// Notional traded at a price.

/// Why a depth-of-market read is unavailable when a value leaves its range.
pub open spec fn overflow_reason() -> Seq<char> {
    "dom_arithmetic_overflow"@
}

/// Why a depth-of-market read is unavailable when a tape row does not read back.
pub open spec fn invalid_tape_reason() -> Seq<char> {
    "invalid_internal_tape_value"@
}

/// A result whose error is a reason text, against its model.
pub open spec fn result_matches<T>(r: Result<T, &str>, s: Result<T, Seq<char>>) -> bool {
    match (r, s) {
        (Ok(a), Ok(b)) => a == b,
        (Err(e), Err(x)) => e@ == x,
        _ => false,
    }
}

/// `x` added to the buy (0), sell (1) or other (2) notional, by the aggressor's text.
pub open spec fn add_flow(acc: (Fixed, Fixed, Fixed), aggressor: Seq<char>, x: Fixed) -> Result<(Fixed, Fixed, Fixed), Seq<char>> {
    if aggressor == "buy"@ {
        match fixed_sum_spec(acc.0, x) {
            Some(b) => Ok((b, acc.1, acc.2)),
            None => Err(overflow_reason()),
        }
    } else if aggressor == "sell"@ {
        match fixed_sum_spec(acc.1, x) {
            Some(b) => Ok((acc.0, b, acc.2)),
            None => Err(overflow_reason()),
        }
    } else {
        match fixed_sum_spec(acc.2, x) {
            Some(b) => Ok((acc.0, acc.1, b)),
            None => Err(overflow_reason()),
        }
    }
}

/// What one tape row adds to the (buy, sell, other) notional traded at `p` since
/// `cutoff`: a trade with a notional, timed by its exchange timestamp (else its receive
/// timestamp) at or after `cutoff`, whose price and notional read back, adds its notional
/// when its price is the same as `p`. A row in the window that does not read back makes
/// the read fail.
pub open spec fn flow_step(acc: (Fixed, Fixed, Fixed), e: EntryView, p: Fixed, cutoff: i64) -> Result<(Fixed, Fixed, Fixed), Seq<char>> {
    match e {
        EntryView::Trade { price, notional, aggressor, exchange_ts_ns, receive_ts_ns, .. } => match notional {
            None => Ok(acc),
            Some(n) => {
                let ts = match exchange_ts_ns {
                    Some(t) => t,
                    None => receive_ts_ns,
                };
                if ts < cutoff {
                    Ok(acc)
                } else {
                    match (parse_fixed_spec(price), parse_fixed_spec(n)) {
                        (Some(tp), Some(x)) => if fixed_same(tp, p) {
                            add_flow(acc, aggressor, x)
                        } else {
                            Ok(acc)
                        },
                        _ => Err(invalid_tape_reason()),
                    }
                }
            },
        },
        _ => Ok(acc),
    }
}

/// The flows of the first `n` tape rows, oldest first, from `zero` on each side; the
/// first failure stops the read.
pub open spec fn flows_upto(rows: Seq<EntryView>, p: Fixed, cutoff: i64, zero: Fixed, n: nat) -> Result<(Fixed, Fixed, Fixed), Seq<char>>
    decreases n,
{
    if n == 0 {
        Ok((zero, zero, zero))
    } else {
        match flows_upto(rows, p, cutoff, zero, (n - 1) as nat) {
            Ok(acc) => flow_step(acc, rows[n - 1], p, cutoff),
            Err(e) => Err(e),
        }
    }
}

proof fn lemma_flows_stay_failed(rows: Seq<EntryView>, p: Fixed, cutoff: i64, zero: Fixed, k: nat, n: nat)
    requires
        k <= n,
        flows_upto(rows, p, cutoff, zero, k) is Err,
    ensures
        flows_upto(rows, p, cutoff, zero, n) == flows_upto(rows, p, cutoff, zero, k),
    decreases n - k,
{
    if k < n {
        lemma_flows_stay_failed(rows, p, cutoff, zero, k + 1, n);
    }
}

/// When a trade happened: its exchange timestamp, else its receive timestamp.
pub open spec fn trade_time(e: EntryView) -> i64 {
    match e {
        EntryView::Trade { exchange_ts_ns, receive_ts_ns, .. } => match exchange_ts_ns {
            Some(t) => t,
            None => receive_ts_ns,
        },
        EntryView::Quote { receive_ts_ns, .. } => receive_ts_ns,
    }
}

proof fn lemma_flows_ignore_later_rows(rows: Seq<EntryView>, e: EntryView, p: Fixed, cutoff: i64, zero: Fixed, n: nat)
    requires
        n <= rows.len(),
    ensures
        flows_upto(rows.push(e), p, cutoff, zero, n) == flows_upto(rows, p, cutoff, zero, n),
    decreases n,
{
    if n > 0 {
        lemma_flows_ignore_later_rows(rows, e, p, cutoff, zero, (n - 1) as nat);
        assert(rows.push(e)[n - 1] == rows[n - 1]);
    }
}

/// One more trade on the tape changes the flows read at `p` only when it is in the
/// window and at the same price as `p`: then its notional adds to the buy, the sell or
/// the other side, by its aggressor, or the read fails on overflow. A trade at another
/// price, or before `cutoff`, leaves every side as it was.
pub proof fn lemma_flows_count_only_trades_at_the_price(
    rows: Seq<EntryView>,
    e: EntryView,
    p: Fixed,
    cutoff: i64,
    zero: Fixed,
    acc: (Fixed, Fixed, Fixed),
    tp: Fixed,
    x: Fixed,
)
    requires
        e is Trade,
        e->notional is Some,
        parse_fixed_spec(e->price) == Some(tp),
        parse_fixed_spec(e->notional->0) == Some(x),
        flows_upto(rows, p, cutoff, zero, rows.len()) == Ok::<(Fixed, Fixed, Fixed), Seq<char>>(acc),
    ensures
        trade_time(e) < cutoff || !fixed_same(tp, p) ==> flows_upto(rows.push(e), p, cutoff, zero, rows.len() + 1)
            == Ok::<(Fixed, Fixed, Fixed), Seq<char>>(acc),
        trade_time(e) >= cutoff && fixed_same(tp, p) && e->aggressor == "buy"@ ==> flows_upto(rows.push(e), p, cutoff, zero, rows.len() + 1)
            == match fixed_sum_spec(acc.0, x) {
                Some(b) => Ok((b, acc.1, acc.2)),
                None => Err(overflow_reason()),
            },
        trade_time(e) >= cutoff && fixed_same(tp, p) && e->aggressor == "sell"@ ==> flows_upto(rows.push(e), p, cutoff, zero, rows.len() + 1)
            == match fixed_sum_spec(acc.1, x) {
                Some(b) => Ok((acc.0, b, acc.2)),
                None => Err(overflow_reason()),
            },
        trade_time(e) >= cutoff && fixed_same(tp, p) && e->aggressor != "buy"@ && e->aggressor != "sell"@ ==> flows_upto(rows.push(e), p, cutoff, zero, rows.len() + 1)
            == match fixed_sum_spec(acc.2, x) {
                Some(b) => Ok((acc.0, acc.1, b)),
                None => Err(overflow_reason()),
            },
{
    reveal_strlit("buy");
    reveal_strlit("sell");
    assert("sell"@ != "buy"@) by {
        assert("sell"@[0] != "buy"@[0]);
    }
    lemma_flows_ignore_later_rows(rows, e, p, cutoff, zero, rows.len());
    assert(rows.push(e)[rows.len() as int] == e);
}

fn add_flow_exec(acc: (Fixed, Fixed, Fixed), aggressor: &str, x: Fixed) -> (r: Result<(Fixed, Fixed, Fixed), &'static str>)
    ensures
        result_matches(r, add_flow(acc, aggressor@, x)),
{
    if str_eq(aggressor, "buy") {
        match fixed_add(acc.0, x) {
            Some(b) => Ok((b, acc.1, acc.2)),
            None => Err("dom_arithmetic_overflow"),
        }
    } else if str_eq(aggressor, "sell") {
        match fixed_add(acc.1, x) {
            Some(b) => Ok((acc.0, b, acc.2)),
            None => Err("dom_arithmetic_overflow"),
        }
    } else {
        match fixed_add(acc.2, x) {
            Some(b) => Ok((acc.0, acc.1, b)),
            None => Err("dom_arithmetic_overflow"),
        }
    }
}

/// The (buy, sell, other) notional traded at `p` since `cutoff` over a trade tape held
/// oldest first: see `flows_upto`.
pub fn executed_flows(trades: &Vec<TapeEntry>, p: Fixed, cutoff: i64, zero: Fixed) -> (r: Result<(Fixed, Fixed, Fixed), &'static str>)
    ensures
        result_matches(r, flows_upto(entry_views(trades@), p, cutoff, zero, trades@.len())),
{
    let ghost rows = entry_views(trades@);
    let mut acc = (zero, zero, zero);
    let mut i: usize = 0;
    while i < trades.len()
        invariant
            i <= trades@.len(),
            rows == entry_views(trades@),
            flows_upto(rows, p, cutoff, zero, i as nat) == Ok::<(Fixed, Fixed, Fixed), Seq<char>>(acc),
        decreases trades.len() - i,
    {
        assert(rows[i as int] == trades@[i as int]@);
        let step: Result<(Fixed, Fixed, Fixed), &'static str> = match &trades[i] {
            TapeEntry::Trade { price, notional, aggressor, exchange_ts_ns, receive_ts_ns, .. } => match notional {
                None => Ok(acc),
                Some(n) => {
                    let ts = match exchange_ts_ns {
                        Some(t) => *t,
                        None => *receive_ts_ns,
                    };
                    if ts < cutoff {
                        Ok(acc)
                    } else {
                        match (parse_fixed(price.as_str()), parse_fixed(n.as_str())) {
                            (Some(tp), Some(x)) => if same_value(tp, p) {
                                add_flow_exec(acc, aggressor.as_str(), x)
                            } else {
                                Ok(acc)
                            },
                            _ => Err("invalid_internal_tape_value"),
                        }
                    }
                },
            },
            _ => Ok(acc),
        };
        assert(result_matches(step, flow_step(acc, rows[i as int], p, cutoff)));
        match step {
            Ok(next) => acc = next,
            Err(e) => {
                proof {
                    lemma_flows_stay_failed(rows, p, cutoff, zero, (i + 1) as nat, trades@.len());
                }
                return Err(e);
            },
        }
        i += 1;
    }
    Ok(acc)
}

// ---------------------------------------------------------------------------
// Rows.

/// One depth-of-market row as values.
pub struct DomRowValues {
    pub price: Fixed,
    pub bid_quantity: Fixed,
    pub ask_quantity: Fixed,
    pub bid_cumulative_notional: Fixed,
    pub ask_cumulative_notional: Fixed,
    pub imbalance_bps: i32,
    pub mbp_delta_quantity: Fixed,
    pub mbp_delta_notional: Fixed,
    pub buy_executed_notional: Fixed,
    pub sell_executed_notional: Fixed,
    pub unknown_executed_notional: Fixed,
    pub total_executed_notional: Fixed,
    pub executed_delta_notional: Fixed,
}

/// A row as served: each value as text.
pub open spec fn row_shown(r: ViewDomRow, v: DomRowValues) -> bool {
    &&& r.price@ == fixed_text(v.price)
    &&& r.bid_quantity@ == fixed_text(v.bid_quantity)
    &&& r.ask_quantity@ == fixed_text(v.ask_quantity)
    &&& r.bid_cumulative_notional@ == fixed_text(v.bid_cumulative_notional)
    &&& r.ask_cumulative_notional@ == fixed_text(v.ask_cumulative_notional)
    &&& r.imbalance_bps == v.imbalance_bps
    &&& r.mbp_delta_quantity@ == fixed_text(v.mbp_delta_quantity)
    &&& r.mbp_delta_notional@ == fixed_text(v.mbp_delta_notional)
    &&& r.buy_executed_notional@ == fixed_text(v.buy_executed_notional)
    &&& r.sell_executed_notional@ == fixed_text(v.sell_executed_notional)
    &&& r.unknown_executed_notional@ == fixed_text(v.unknown_executed_notional)
    &&& r.total_executed_notional@ == fixed_text(v.total_executed_notional)
    &&& r.executed_delta_notional@ == fixed_text(v.executed_delta_notional)
}

pub open spec fn rows_shown(r: Seq<ViewDomRow>, v: Seq<DomRowValues>) -> bool {
    r.len() == v.len() && forall|i: int| 0 <= i < r.len() ==> row_shown(#[trigger] r[i], v[i])
}

/// `a + b`, stopping at 255.
pub open spec fn sat_add_u8(a: u8, b: u8) -> u8 {
    if a + b > u8::MAX {
        u8::MAX
    } else {
        (a + b) as u8
    }
}

/// The row at price `p` of a book (`bids`, `asks`, best first), given the last two depth
/// samples and the trade tape (oldest first), counting trades since `cutoff`.
/// Quantities are the book's at `p` (zero at the first level's quantity scale when it has
/// none there). The change by price level is the change in bid quantity at `p` between
/// the previous and the latest sample, less the change in ask quantity; its notional is
/// `p` times that. Notionals are at the first level's price scale plus quantity scale:
/// the bid side's cumulative notional counts the bids at or above `p`, the ask side's the
/// asks at or below it. Any value that leaves its range makes the read fail.
pub open spec fn dom_row_spec(
    bids: Seq<DepthLevel>,
    asks: Seq<DepthLevel>,
    latest: Option<DepthModel>,
    previous: Option<DepthModel>,
    trades: Seq<EntryView>,
    cutoff: i64,
    p: Fixed,
) -> Result<DomRowValues, Seq<char>> {
    let (ps, qs) = first_scales(bids, asks);
    let zero = Fixed { coefficient: 0, scale: sat_add_u8(ps, qs) };
    let bid_q = book_quantity(bids, p, qs);
    let ask_q = book_quantity(asks, p, qs);
    let bid_delta = fixed_difference_spec(sample_quantity(latest, true, p, qs), sample_quantity(previous, true, p, qs));
    let ask_delta = fixed_difference_spec(sample_quantity(latest, false, p, qs), sample_quantity(previous, false, p, qs));
    match (bid_delta, ask_delta) {
        (Some(bd), Some(ad)) => match fixed_difference_spec(bd, ad) {
            None => Err(overflow_reason()),
            Some(mbp) => match flows_upto(trades, p, cutoff, zero, trades.len()) {
                Err(e) => Err(e),
                Ok((buy, sell, other)) => {
                    let total = match fixed_sum_spec(buy, sell) {
                        Some(t) => fixed_sum_spec(t, other),
                        None => None,
                    };
                    match (
                        total,
                        fixed_difference_spec(buy, sell),
                        cumulative_upto(bids, p, true, zero, bids.len()),
                        cumulative_upto(asks, p, false, zero, asks.len()),
                        imbalance_spec(bid_q, ask_q),
                        fixed_mul_spec(p, mbp),
                    ) {
                        (Some(t), Some(ed), Some(bc), Some(ac), Some(imb), Some(mn)) => Ok(
                            DomRowValues {
                                price: p,
                                bid_quantity: bid_q,
                                ask_quantity: ask_q,
                                bid_cumulative_notional: bc,
                                ask_cumulative_notional: ac,
                                imbalance_bps: imb,
                                mbp_delta_quantity: mbp,
                                mbp_delta_notional: mn,
                                buy_executed_notional: buy,
                                sell_executed_notional: sell,
                                unknown_executed_notional: other,
                                total_executed_notional: t,
                                executed_delta_notional: ed,
                            },
                        ),
                        _ => Err(overflow_reason()),
                    }
                },
            },
        },
        _ => Err(overflow_reason()),
    }
}

pub open spec fn row_result_shown(r: Result<ViewDomRow, &str>, s: Result<DomRowValues, Seq<char>>) -> bool {
    match (r, s) {
        (Ok(row), Ok(v)) => row_shown(row, v),
        (Err(e), Err(x)) => e@ == x,
        _ => false,
    }
}

fn sat_add_u8_exec(a: u8, b: u8) -> (r: u8)
    ensures
        r == sat_add_u8(a, b),
{
    if a as u16 + b as u16 > 255 {
        255
    } else {
        a + b
    }
}

/// One row: see `dom_row_spec`.
pub fn dom_row(
    bids: &Vec<DepthLevel>,
    asks: &Vec<DepthLevel>,
    latest: Option<&StoredDepthSample>,
    previous: Option<&StoredDepthSample>,
    trades: &Vec<TapeEntry>,
    cutoff: i64,
    p: Fixed,
) -> (r: Result<ViewDomRow, &'static str>)
    ensures
        row_result_shown(
            r,
            dom_row_spec(bids@, asks@, sample_model(latest), sample_model(previous), entry_views(trades@), cutoff, p),
        ),
{
    let (ps, qs) = if bids.len() > 0 {
        (bids[0].price.scale, bids[0].quantity.scale)
    } else if asks.len() > 0 {
        (asks[0].price.scale, asks[0].quantity.scale)
    } else {
        (0, 0)
    };
    assert((ps, qs) == first_scales(bids@, asks@));
    let zero = Fixed { coefficient: 0, scale: sat_add_u8_exec(ps, qs) };
    let bid_q = book_quantity_at(bids, p, qs);
    let ask_q = book_quantity_at(asks, p, qs);
    let latest_bid = sample_quantity_at(latest, true, p, qs);
    let previous_bid = sample_quantity_at(previous, true, p, qs);
    let latest_ask = sample_quantity_at(latest, false, p, qs);
    let previous_ask = sample_quantity_at(previous, false, p, qs);
    let bid_delta = match fixed_difference(latest_bid, previous_bid) {
        Some(d) => d,
        None => return Err("dom_arithmetic_overflow"),
    };
    let ask_delta = match fixed_difference(latest_ask, previous_ask) {
        Some(d) => d,
        None => return Err("dom_arithmetic_overflow"),
    };
    let mbp = match fixed_difference(bid_delta, ask_delta) {
        Some(d) => d,
        None => return Err("dom_arithmetic_overflow"),
    };
    let (buy, sell, other) = match executed_flows(trades, p, cutoff, zero) {
        Ok(f) => f,
        Err(e) => return Err(e),
    };
    let total = match fixed_add(buy, sell) {
        Some(t) => match fixed_add(t, other) {
            Some(t) => t,
            None => return Err("dom_arithmetic_overflow"),
        },
        None => return Err("dom_arithmetic_overflow"),
    };
    let executed_delta = match fixed_difference(buy, sell) {
        Some(d) => d,
        None => return Err("dom_arithmetic_overflow"),
    };
    let bid_cumulative = match cumulative_notional(bids, p, true, zero) {
        Some(c) => c,
        None => return Err("dom_arithmetic_overflow"),
    };
    let ask_cumulative = match cumulative_notional(asks, p, false, zero) {
        Some(c) => c,
        None => return Err("dom_arithmetic_overflow"),
    };
    let imbalance = match quantity_imbalance_bps(bid_q, ask_q) {
        Some(v) => v,
        None => return Err("dom_arithmetic_overflow"),
    };
    let mbp_notional = match fixed_mul(p, mbp) {
        Some(n) => n,
        None => return Err("dom_arithmetic_overflow"),
    };
    Ok(ViewDomRow {
        price: format_fixed(p),
        bid_quantity: format_fixed(bid_q),
        ask_quantity: format_fixed(ask_q),
        bid_cumulative_notional: format_fixed(bid_cumulative),
        ask_cumulative_notional: format_fixed(ask_cumulative),
        imbalance_bps: imbalance,
        mbp_delta_quantity: format_fixed(mbp),
        mbp_delta_notional: format_fixed(mbp_notional),
        buy_executed_notional: format_fixed(buy),
        sell_executed_notional: format_fixed(sell),
        unknown_executed_notional: format_fixed(other),
        total_executed_notional: format_fixed(total),
        executed_delta_notional: format_fixed(executed_delta),
    })
}

/// The rows at the first `n` of `prices`; the first failing row stops the read.
pub open spec fn dom_rows_upto(
    bids: Seq<DepthLevel>,
    asks: Seq<DepthLevel>,
    latest: Option<DepthModel>,
    previous: Option<DepthModel>,
    trades: Seq<EntryView>,
    cutoff: i64,
    prices: Seq<Fixed>,
    n: nat,
) -> Result<Seq<DomRowValues>, Seq<char>>
    decreases n,
{
    if n == 0 {
        Ok(Seq::empty())
    } else {
        match dom_rows_upto(bids, asks, latest, previous, trades, cutoff, prices, (n - 1) as nat) {
            Err(e) => Err(e),
            Ok(rows) => match dom_row_spec(bids, asks, latest, previous, trades, cutoff, prices[n - 1]) {
                Ok(r) => Ok(rows.push(r)),
                Err(e) => Err(e),
            },
        }
    }
}

/// The rows of a book, one per price highest first (see `dom_prices`).
pub open spec fn dom_rows_spec(
    bids: Seq<DepthLevel>,
    asks: Seq<DepthLevel>,
    latest: Option<DepthModel>,
    previous: Option<DepthModel>,
    trades: Seq<EntryView>,
    cutoff: i64,
) -> Result<Seq<DomRowValues>, Seq<char>> {
    let prices = dom_prices(bids, asks);
    dom_rows_upto(bids, asks, latest, previous, trades, cutoff, prices, prices.len())
}

pub open spec fn rows_result_shown(r: Result<Vec<ViewDomRow>, &str>, s: Result<Seq<DomRowValues>, Seq<char>>) -> bool {
    match (r, s) {
        (Ok(rows), Ok(v)) => rows_shown(rows@, v),
        (Err(e), Err(x)) => e@ == x,
        _ => false,
    }
}

proof fn lemma_rows_stay_failed(
    bids: Seq<DepthLevel>,
    asks: Seq<DepthLevel>,
    latest: Option<DepthModel>,
    previous: Option<DepthModel>,
    trades: Seq<EntryView>,
    cutoff: i64,
    prices: Seq<Fixed>,
    k: nat,
    n: nat,
)
    requires
        k <= n,
        dom_rows_upto(bids, asks, latest, previous, trades, cutoff, prices, k) is Err,
    ensures
        dom_rows_upto(bids, asks, latest, previous, trades, cutoff, prices, n)
            == dom_rows_upto(bids, asks, latest, previous, trades, cutoff, prices, k),
    decreases n - k,
{
    if k < n {
        lemma_rows_stay_failed(bids, asks, latest, previous, trades, cutoff, prices, k + 1, n);
    }
}

/// All rows of a book: see `dom_rows_spec`.
pub fn dom_rows(
    bids: &Vec<DepthLevel>,
    asks: &Vec<DepthLevel>,
    latest: Option<&StoredDepthSample>,
    previous: Option<&StoredDepthSample>,
    trades: &Vec<TapeEntry>,
    cutoff: i64,
) -> (r: Result<Vec<ViewDomRow>, &'static str>)
    ensures
        rows_result_shown(
            r,
            dom_rows_spec(bids@, asks@, sample_model(latest), sample_model(previous), entry_views(trades@), cutoff),
        ),
{
    let ghost (lm, pm, tv) = (sample_model(latest), sample_model(previous), entry_views(trades@));
    let prices = book_prices(bids, asks);
    let mut rows: Vec<ViewDomRow> = Vec::new();
    let ghost mut vals: Seq<DomRowValues> = Seq::empty();
    let mut i: usize = 0;
    while i < prices.len()
        invariant
            i <= prices@.len(),
            prices@ == dom_prices(bids@, asks@),
            lm == sample_model(latest),
            pm == sample_model(previous),
            tv == entry_views(trades@),
            dom_rows_upto(bids@, asks@, lm, pm, tv, cutoff, prices@, i as nat) == Ok::<Seq<DomRowValues>, Seq<char>>(vals),
            rows_shown(rows@, vals),
        decreases prices.len() - i,
    {
        match dom_row(bids, asks, latest, previous, trades, cutoff, prices[i]) {
            Ok(row) => {
                let ghost v = dom_row_spec(bids@, asks@, lm, pm, tv, cutoff, prices@[i as int])->Ok_0;
                rows.push(row);
                proof {
                    vals = vals.push(v);
                }
            },
            Err(e) => {
                proof {
                    lemma_rows_stay_failed(bids@, asks@, lm, pm, tv, cutoff, prices@, (i + 1) as nat, prices@.len());
                }
                return Err(e);
            },
        }
        i += 1;
    }
    Ok(rows)
}

} // verus!
