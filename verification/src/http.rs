//! HTTP/1.1 request parsing for the health and view listeners: the request line, the
//! header block, `Content-Length`, the body, query strings and percent-decoding.

use vstd::prelude::*;
use vstd::utf8::{encode_utf8, is_char_boundary};

use crate::text::{chars, is_whitespace, is_ws, lower, parse_usize, starts_with, trim, parse_usize_str, lower_chars, trim_str};

verus! {

broadcast use vstd::string::group_string_axioms;

/// The first index at or after `i` holding `c`, or `s.len()`.
pub open spec fn find_from(s: Seq<char>, c: char, i: nat) -> nat
    decreases s.len() - i,
{
    if i >= s.len() {
        s.len()
    } else if s[i as int] == c {
        i
    } else {
        find_from(s, c, i + 1)
    }
}

pub proof fn lemma_find_from_bounds(s: Seq<char>, c: char, i: nat)
    ensures
        i <= s.len() ==> i <= find_from(s, c, i) <= s.len(),
        i > s.len() ==> find_from(s, c, i) == s.len(),
        find_from(s, c, i) < s.len() ==> s[find_from(s, c, i) as int] == c,
        forall|j: int| i <= j < find_from(s, c, i) ==> s[j] != c,
    decreases s.len() - i,
{
    if i < s.len() && s[i as int] != c {
        lemma_find_from_bounds(s, c, i + 1);
    }
}

/// A line as `str::lines` yields it: a `\r` before the `\n` that ended it is dropped.
pub open spec fn strip_cr(line: Seq<char>, ended_by_newline: bool) -> Seq<char> {
    if ended_by_newline && line.len() > 0 && line.last() == '\r' {
        line.drop_last()
    } else {
        line
    }
}

/// `str::lines` of `s[p..]`.
pub open spec fn lines_from(s: Seq<char>, p: nat) -> Seq<Seq<char>>
    decreases s.len() - p,
{
    if p >= s.len() {
        seq![]
    } else {
        let k = find_from(s, '\n', p);
        if k < s.len() {
            proof {
                lemma_find_from_bounds(s, '\n', p);
            }
            seq![strip_cr(s.subrange(p as int, k as int), true)] + lines_from(s, k + 1)
        } else {
            seq![strip_cr(s.subrange(p as int, s.len() as int), false)]
        }
    }
}

/// The first index at or after `i` whose character is (`ws`) or is not (`!ws`) whitespace.
pub open spec fn scan_from(s: Seq<char>, i: nat, ws: bool) -> nat
    decreases s.len() - i,
{
    if i >= s.len() {
        s.len()
    } else if is_ws(s[i as int]) == ws {
        i
    } else {
        scan_from(s, i + 1, ws)
    }
}

pub proof fn lemma_scan_from_bounds(s: Seq<char>, i: nat, ws: bool)
    ensures
        i <= s.len() ==> i <= scan_from(s, i, ws) <= s.len(),
        i > s.len() ==> scan_from(s, i, ws) == s.len(),
        scan_from(s, i, ws) < s.len() ==> is_ws(s[scan_from(s, i, ws) as int]) == ws,
    decreases s.len() - i,
{
    if i < s.len() && is_ws(s[i as int]) != ws {
        lemma_scan_from_bounds(s, i + 1, ws);
    }
}

/// The bounds of the first whitespace-separated word at or after `i`, if any.
pub open spec fn word_from(s: Seq<char>, i: nat) -> Option<(nat, nat)> {
    let a = scan_from(s, i, false);
    if a >= s.len() {
        None
    } else {
        Some((a, scan_from(s, a, true)))
    }
}

pub(crate) fn find_char_from(v: &Vec<char>, c: char, i: usize) -> (k: usize)
    requires
        i <= v.len(),
    ensures
        k == find_from(v@, c, i as nat),
{
    let mut k = i;
    while k < v.len() && v[k] != c
        invariant
            i <= k <= v.len(),
            find_from(v@, c, i as nat) == find_from(v@, c, k as nat),
        decreases v.len() - k,
    {
        k += 1;
    }
    k
}

fn scan(v: &Vec<char>, i: usize, ws: bool) -> (k: usize)
    requires
        i <= v.len(),
    ensures
        k == scan_from(v@, i as nat, ws),
{
    let mut k = i;
    while k < v.len() && is_whitespace(v[k]) != ws
        invariant
            i <= k <= v.len(),
            scan_from(v@, i as nat, ws) == scan_from(v@, k as nat, ws),
        decreases v.len() - k,
    {
        k += 1;
    }
    k
}

/// The bounds of the first line of `v`, as `str::lines` yields it.
pub(crate) fn first_line_bounds(v: &Vec<char>) -> (r: Option<(usize, usize)>)
    ensures
        lines_from(v@, 0).len() == 0 ==> r is None,
        lines_from(v@, 0).len() > 0 ==> (r matches Some((a, b)) && a == 0 && b <= v.len()
            && v@.subrange(0, b as int) == lines_from(v@, 0)[0]),
{
    if v.len() == 0 {
        return None;
    }
    let k = find_char_from(v, '\n', 0);
    proof {
        lemma_find_from_bounds(v@, '\n', 0);
    }
    let mut end = k;
    if k < v.len() && k > 0 && v[k - 1] == '\r' {
        end = k - 1;
    }
    proof {
        if k < v.len() {
            assert(lines_from(v@, 0)[0] == strip_cr(v@.subrange(0, k as int), true));
            if k > 0 && v@[k - 1] == '\r' {
                assert(v@.subrange(0, k as int).drop_last() =~= v@.subrange(0, end as int));
            }
        } else {
            assert(lines_from(v@, 0)[0] == strip_cr(v@.subrange(0, v@.len() as int), false));
        }
    }
    Some((0, end))
}

/// What `request_path` finds in a request: the target of its request line, without
/// the query string.
pub open spec fn request_path_spec(req: Seq<char>) -> Option<Seq<char>> {
    if lines_from(req, 0).len() == 0 {
        None
    } else {
        let line = lines_from(req, 0)[0];
        match word_from(line, 0) {
            None => None,
            Some((_a, b)) => match word_from(line, b) {
                None => None,
                Some((c, d)) => {
                    let target = line.subrange(c as int, d as int);
                    Some(target.take(find_from(target, '?', 0) as int))
                },
            },
        }
    }
}

/// The method, path and query of a request line.
pub open spec fn request_line_spec(req: Seq<char>) -> Option<(Seq<char>, Seq<char>, Seq<char>)> {
    if lines_from(req, 0).len() == 0 {
        None
    } else {
        let line = lines_from(req, 0)[0];
        match word_from(line, 0) {
            None => None,
            Some((a, b)) => match word_from(line, b) {
                None => None,
                Some((c, d)) => {
                    let target = line.subrange(c as int, d as int);
                    let q = find_from(target, '?', 0);
                    Some((
                        line.subrange(a as int, b as int),
                        target.take(q as int),
                        if q < target.len() { target.skip((q + 1) as int) } else { seq![] },
                    ))
                },
            },
        }
    }
}

/// The two first words of the first line: `(method start, method end, target start, target end)`.
fn request_words(v: &Vec<char>) -> (r: Option<(usize, usize, usize, usize)>)
    ensures
        match (if lines_from(v@, 0).len() == 0 { None } else {
            let line = lines_from(v@, 0)[0];
            match word_from(line, 0) {
                None => None,
                Some((a, b)) => match word_from(line, b) {
                    None => None,
                    Some((c, d)) => Some((a, b, c, d)),
                },
            }
        }) {
            None => r is None,
            Some((a, b, c, d)) => r matches Some((ra, rb, rc, rd)) && ra == a && rb == b && rc == c && rd == d
                && a < b <= c < d <= v.len() && d <= lines_from(v@, 0)[0].len()
                && lines_from(v@, 0)[0] == v@.subrange(0, lines_from(v@, 0)[0].len() as int),
        },
{
    let (lo, hi) = match first_line_bounds(v) {
        None => return None,
        Some(b) => b,
    };
    let ghost line = lines_from(v@, 0)[0];
    let mut lv: Vec<char> = Vec::new();
    let mut i: usize = 0;
    while i < hi
        invariant
            i <= hi <= v.len(),
            lv@ == v@.subrange(0, i as int),
        decreases hi - i,
    {
        lv.push(v[i]);
        i += 1;
        assert(lv@ =~= v@.subrange(0, i as int));
    }
    assert(lv@ == line);
    let a = scan(&lv, 0, false);
    proof {
        lemma_scan_from_bounds(lv@, 0, false);
    }
    if a >= lv.len() {
        return None;
    }
    let b = scan(&lv, a, true);
    proof {
        lemma_scan_from_bounds(lv@, a as nat, true);
        lemma_scan_from_bounds(lv@, (a + 1) as nat, true);
        assert(!is_ws(lv@[a as int]));
        assert(scan_from(lv@, a as nat, true) > a);
    }
    let c = scan(&lv, b, false);
    proof {
        lemma_scan_from_bounds(lv@, b as nat, false);
    }
    if c >= lv.len() {
        return None;
    }
    let d = scan(&lv, c, true);
    proof {
        lemma_scan_from_bounds(lv@, c as nat, true);
        lemma_scan_from_bounds(lv@, (c + 1) as nat, true);
        assert(!is_ws(lv@[c as int]));
        assert(scan_from(lv@, c as nat, true) > c);
    }
    Some((a, b, c, d))
}

/// The request target of the first line, without its query string.
pub fn request_path(req: &str) -> (r: Option<&str>)
    ensures
        match request_path_spec(req@) {
            None => r is None,
            Some(p) => r matches Some(s) && s@ == p,
        },
{
    let v = chars(req);
    match request_words(&v) {
        None => None,
        Some((_a, _b, c, d)) => {
            let ghost line = lines_from(v@, 0)[0];
            let target = req.substring_char(c, d);
            let tv = chars(target);
            let q = find_char_from(&tv, '?', 0);
            proof {
                lemma_find_from_bounds(tv@, '?', 0);
                assert(line.subrange(c as int, d as int) =~= v@.subrange(c as int, d as int));
            }
            Some(req.substring_char(c, c + q))
        },
    }
}

/// Splits the request line into method, path and query (`""` without a `?`).
pub fn parse_request(req: &str) -> (r: Option<(&str, &str, &str)>)
    ensures
        match request_line_spec(req@) {
            None => r is None,
            Some((m, p, q)) => r matches Some((rm, rp, rq)) && rm@ == m && rp@ == p && rq@ == q,
        },
{
    let v = chars(req);
    match request_words(&v) {
        None => None,
        Some((a, b, c, d)) => {
            let ghost line = lines_from(v@, 0)[0];
            let target = req.substring_char(c, d);
            let tv = chars(target);
            let q = find_char_from(&tv, '?', 0);
            proof {
                lemma_find_from_bounds(tv@, '?', 0);
                assert(line.subrange(c as int, d as int) =~= v@.subrange(c as int, d as int));
                assert(line.subrange(a as int, b as int) =~= v@.subrange(a as int, b as int));
            }
            let method = req.substring_char(a, b);
            let path = req.substring_char(c, c + q);
            let query = if q < d - c {
                let qs = req.substring_char(c + q + 1, d);
                assert(qs@ =~= target@.skip(q + 1));
                qs
            } else {
                let e = req.substring_char(0, 0);
                assert(e@ =~= Seq::<char>::empty());
                e
            };
            Some((method, path, query))
        },
    }
}

/// The `Content-Length` among `lines[j..]`: the first header line (before the blank
/// line) that starts, ignoring ASCII case, with `content-length:`.
pub open spec fn content_length_from(lines: Seq<Seq<char>>, j: nat) -> Option<usize>
    decreases lines.len() - j,
{
    if j >= lines.len() {
        None
    } else if lines[j as int].len() == 0 {
        None
    } else if starts_with(lower(lines[j as int]), "content-length:"@) {
        parse_usize(trim(lower(lines[j as int]).skip(15)))
    } else {
        content_length_from(lines, j + 1)
    }
}

/// The declared `Content-Length` of a request, if a header line gives a valid one.
pub open spec fn content_length_spec(req: Seq<char>) -> Option<usize> {
    content_length_from(lines_from(req, 0), 1)
}

proof fn lemma_content_length_shift(x: Seq<char>, r: Seq<Seq<char>>, j: nat)
    ensures
        content_length_from(seq![x] + r, j + 1) == content_length_from(r, j),
    decreases r.len() - j,
{
    let l = seq![x] + r;
    if j < r.len() {
        assert(l[(j + 1) as int] == r[j as int]);
        lemma_content_length_shift(x, r, j + 1);
    }
}

/// The line starting at `p`: the end of its text (before any `\r\n` or `\n`) and where
/// the next line starts (`None` when it is the last).
fn line_at(v: &Vec<char>, p: usize) -> (r: (usize, Option<usize>))
    requires
        p < v.len(),
    ensures
        p <= r.0 <= v.len(),
        lines_from(v@, p as nat) == seq![v@.subrange(p as int, r.0 as int)] + match r.1 {
            Some(n) => lines_from(v@, n as nat),
            None => Seq::<Seq<char>>::empty(),
        },
        r.1 matches Some(n) ==> p < n <= v.len(),
{
    let k = find_char_from(v, '\n', p);
    proof {
        lemma_find_from_bounds(v@, '\n', p as nat);
    }
    if k < v.len() {
        let mut end = k;
        if k > p && v[k - 1] == '\r' {
            end = k - 1;
            assert(v@.subrange(p as int, k as int).drop_last() =~= v@.subrange(p as int, end as int));
        }
        (end, Some(k + 1))
    } else {
        assert(lines_from(v@, p as nat) =~= seq![v@.subrange(p as int, v@.len() as int)]);
        (k, None)
    }
}

/// Whether `v[p..e]`, lowercased, starts with `content-length:`; if so, its value.
fn header_value(v: &Vec<char>, p: usize, e: usize) -> (r: (bool, Option<usize>))
    requires
        p <= e <= v.len(),
    ensures
        r.0 == starts_with(lower(v@.subrange(p as int, e as int)), "content-length:"@),
        r.0 ==> r.1 == parse_usize(trim(lower(v@.subrange(p as int, e as int)).skip(15))),
{
    let mut line = String::new();
    let mut i = p;
    while i < e
        invariant
            p <= i <= e <= v.len(),
            line@ == v@.subrange(p as int, i as int),
        decreases e - i,
    {
        crate::text::push_char(&mut line, v[i]);
        i += 1;
        assert(line@ =~= v@.subrange(p as int, i as int));
    }
    let l = lower_chars(line.as_str());
    let ls = crate::text::string_of(&l);
    if !crate::text::str_starts_with(ls.as_str(), "content-length:") {
        return (false, None);
    }
    proof {
        reveal_strlit("content-length:");
    }
    let rest = ls.as_str().substring_char(15, l.len());
    assert(rest@ =~= l@.skip(15));
    let t = trim_str(rest);
    (true, parse_usize_str(t))
}

/// The declared `Content-Length` of a request, if a header line gives a valid one.
pub fn content_length(req: &str) -> (r: Option<usize>)
    ensures
        r == content_length_spec(req@),
{
    let v = chars(req);
    if v.len() == 0 {
        return None;
    }
    let (_e0, next) = line_at(&v, 0);
    let mut p = match next {
        None => {
            return None;
        },
        Some(n) => n,
    };
    proof {
        lemma_content_length_shift(lines_from(v@, 0)[0], lines_from(v@, p as nat), 0);
        assert(lines_from(v@, 0) == seq![lines_from(v@, 0)[0]] + lines_from(v@, p as nat));
    }
    while p < v.len()
        invariant
            p <= v.len(),
            v@ == req@,
            content_length_spec(req@) == content_length_from(lines_from(v@, p as nat), 0),
        decreases v.len() - p,
    {
        let (e, next) = line_at(&v, p);
        let ghost x = v@.subrange(p as int, e as int);
        let ghost rest = match next {
            Some(n) => lines_from(v@, n as nat),
            None => Seq::<Seq<char>>::empty(),
        };
        assert(lines_from(v@, p as nat)[0] == x);
        if e == p {
            assert(x.len() == 0);
            return None;
        }
        let (is_cl, val) = header_value(&v, p, e);
        if is_cl {
            return val;
        }
        proof {
            lemma_content_length_shift(x, rest, 0);
        }
        match next {
            None => {
                assert(content_length_from(Seq::<Seq<char>>::empty(), 0) is None);
                return None;
            },
            Some(n) => {
                p = n;
            },
        }
    }
    None
}

// ---------------------------------------------------------------------------
// The header block and the body.

/// The largest POST body the view listener accepts.
pub const MAX_POST_BODY: usize = 16_384;

/// Whether a blank line (`\r\n\r\n`) starts at `i` in `s`.
pub open spec fn blank_line_at(s: Seq<char>, i: int) -> bool {
    0 <= i && i + 4 <= s.len() && s[i] == '\r' && s[i + 1] == '\n' && s[i + 2] == '\r' && s[i + 3]
        == '\n'
}

/// The first position at or after `i` where a blank line starts, if any.
pub open spec fn blank_line_from(s: Seq<char>, i: nat) -> Option<nat>
    decreases s.len() + 1 - i,
{
    if i + 4 > s.len() {
        None
    } else if blank_line_at(s, i as int) {
        Some(i)
    } else {
        blank_line_from(s, i + 1)
    }
}

pub proof fn lemma_blank_line_from_bounds(s: Seq<char>, i: nat)
    ensures
        blank_line_from(s, i) matches Some(k) ==> i <= k && k + 4 <= s.len(),
    decreases s.len() + 1 - i,
{
    if i + 4 <= s.len() && !blank_line_at(s, i as int) {
        lemma_blank_line_from_bounds(s, i + 1);
    }
}

/// Where the body of a request starts (after the first blank line), and how many bytes
/// of it the request declares (its `Content-Length`, else all of it).
pub open spec fn body_cut(req: Seq<char>) -> Option<(Seq<char>, nat)> {
    match blank_line_from(req, 0) {
        None => None,
        Some(i) => {
            let body = req.skip((i + 4) as int);
            let len: nat = match content_length_spec(req) {
                Some(n) => n as nat,
                None => encode_utf8(body).len(),
            };
            if len > MAX_POST_BODY || encode_utf8(body).len() < len {
                None
            } else {
                Some((body, len))
            }
        },
    }
}

fn find_blank_line(v: &Vec<char>) -> (r: Option<usize>)
    ensures
        r is None <==> blank_line_from(v@, 0) is None,
        r matches Some(k) ==> blank_line_from(v@, 0) == Some(k as nat) && k + 4 <= v.len(),
{
    proof {
        lemma_blank_line_from_bounds(v@, 0);
    }
    if v.len() < 4 {
        return None;
    }
    let mut i: usize = 0;
    while i <= v.len() - 4
        invariant
            v.len() >= 4,
            blank_line_from(v@, 0) == blank_line_from(v@, i as nat),
        decreases v.len() - i,
    {
        if v[i] == '\r' && v[i + 1] == '\n' && v[i + 2] == '\r' && v[i + 3] == '\n' {
            return Some(i);
        }
        i += 1;
    }
    None
}

/// The declared body of a request: the bytes after the first blank line, as many as
/// `Content-Length` says (all of them without one), when at most 16 KiB and all present.
pub fn request_body(req: &str) -> (r: Option<&str>)
    requires
        body_cut(req@) matches Some((body, len)) ==> is_char_boundary(encode_utf8(body), len as int),
    ensures
        match body_cut(req@) {
            None => r is None,
            Some((body, len)) => r matches Some(b) && encode_utf8(b@) == encode_utf8(body).take(len as int),
        },
{
    let v = chars(req);
    let i = match find_blank_line(&v) {
        None => return None,
        Some(i) => i,
    };
    let body = req.substring_char(i + 4, v.len());
    assert(body@ =~= req@.skip(i + 4));
    let body_bytes = body.as_bytes().len();
    let len = match content_length(req) {
        Some(n) => n,
        None => body_bytes,
    };
    if len > MAX_POST_BODY {
        return None;
    }
    if body_bytes < len {
        return None;
    }
    let (head, _rest) = body.split_at(len);
    proof {
        vstd::utf8::encode_utf8_decode_utf8(head@);
    }
    assert(encode_utf8(head@) =~= encode_utf8(body@).take(len as int));
    Some(head)
}

/// Where the header block of raw request bytes ends: just past the first `\r\n\r\n`.
pub open spec fn header_end_spec(b: Seq<u8>) -> Option<nat> {
    header_end_from(b, 0)
}

pub open spec fn crlf2_at(b: Seq<u8>, i: int) -> bool {
    0 <= i && i + 4 <= b.len() && b[i] == 13 && b[i + 1] == 10 && b[i + 2] == 13 && b[i + 3] == 10
}

pub open spec fn header_end_from(b: Seq<u8>, i: nat) -> Option<nat>
    decreases b.len() + 1 - i,
{
    if i + 4 > b.len() {
        None
    } else if crlf2_at(b, i as int) {
        Some(i + 4)
    } else {
        header_end_from(b, i + 1)
    }
}

pub fn find_header_end(request: &[u8]) -> (r: Option<usize>)
    ensures
        r is None <==> header_end_spec(request@) is None,
        r matches Some(k) ==> header_end_spec(request@) == Some(k as nat) && k <= request@.len(),
{
    if request.len() < 4 {
        return None;
    }
    let mut i: usize = 0;
    while i <= request.len() - 4
        invariant
            request.len() >= 4,
            header_end_spec(request@) == header_end_from(request@, i as nat),
        decreases request.len() - i,
    {
        if request[i] == 13 && request[i + 1] == 10 && request[i + 2] == 13 && request[i + 3] == 10 {
            return Some(i + 4);
        }
        i += 1;
    }
    None
}

// ---------------------------------------------------------------------------
// Percent-decoding and query strings.

pub open spec fn hex_value(b: u8) -> Option<u8> {
    if 48 <= b <= 57 {
        Some((b - 48) as u8)
    } else if 97 <= b <= 102 {
        Some((b - 97 + 10) as u8)
    } else if 65 <= b <= 70 {
        Some((b - 65 + 10) as u8)
    } else {
        None
    }
}

/// The value of an ASCII hex digit.
pub fn hex(b: u8) -> (r: Option<u8>)
    ensures
        r == hex_value(b),
{
    if 48 <= b && b <= 57 {
        Some(b - 48)
    } else if 97 <= b && b <= 102 {
        Some(b - 97 + 10)
    } else if 65 <= b && b <= 70 {
        Some(b - 65 + 10)
    } else {
        None
    }
}

/// Percent-decoding of `b[i..]`: `+` is a space, `%` followed by two hex digits the
/// byte they spell, anything else itself.
pub open spec fn pct_from(b: Seq<u8>, i: nat) -> Seq<u8>
    decreases b.len() - i,
{
    if i >= b.len() {
        seq![]
    } else if b[i as int] == 43 {
        seq![32u8] + pct_from(b, i + 1)
    } else if b[i as int] == 37 && i + 2 < b.len() && hex_value(b[i + 1int]) is Some && hex_value(b[i + 2int]) is Some {
        seq![(hex_value(b[i + 1int])->Some_0 * 16 + hex_value(b[i + 2int])->Some_0) as u8] + pct_from(b, i + 3)
    } else {
        seq![b[i as int]] + pct_from(b, i + 1)
    }
}

/// The text `String::from_utf8_lossy` makes of `b`.
pub uninterp spec fn lossy_text(b: Seq<u8>) -> Seq<char>;

/// `String::from_utf8_lossy`: invalid sequences become U+FFFD.
#[verifier::external_body]
fn utf8_lossy(b: &[u8]) -> (s: String)
    ensures
        s@ == lossy_text(b@),
        vstd::utf8::valid_utf8(b@) ==> s@ == vstd::utf8::decode_utf8(b@),
{
    String::from_utf8_lossy(b).into_owned()
}

/// The decoded text of a percent-encoded string.
pub open spec fn percent_decoded(s: Seq<char>) -> Seq<char> {
    lossy_text(pct_from(encode_utf8(s), 0))
}

/// Decodes `+` and `%hh` escapes; bytes that are not valid UTF-8 become U+FFFD.
pub fn percent_decode(s: &str) -> (r: String)
    ensures
        r@ == percent_decoded(s@),
{
    let bytes = s.as_bytes();
    let mut out: Vec<u8> = Vec::new();
    let mut i: usize = 0;
    while i < bytes.len()
        invariant
            i <= bytes.len(),
            bytes@ == encode_utf8(s@),
            out@ + pct_from(bytes@, i as nat) == pct_from(bytes@, 0),
        decreases bytes.len() - i,
    {
        let b = bytes[i];
        if b == 43 {
            out.push(32);
            assert(out@ + pct_from(bytes@, (i + 1) as nat) =~= pct_from(bytes@, 0));
            i += 1;
        } else if b == 37 && bytes.len() - i > 2 {
            let h = hex(bytes[i + 1]);
            let l = hex(bytes[i + 2]);
            match (h, l) {
                (Some(h), Some(l)) => {
                    let v: u8 = h * 16 + l;
                    out.push(v);
                    assert(out@ + pct_from(bytes@, (i + 3) as nat) =~= pct_from(bytes@, 0));
                    i += 3;
                },
                _ => {
                    out.push(b);
                    assert(out@ + pct_from(bytes@, (i + 1) as nat) =~= pct_from(bytes@, 0));
                    i += 1;
                },
            }
        } else {
            out.push(b);
            assert(out@ + pct_from(bytes@, (i + 1) as nat) =~= pct_from(bytes@, 0));
            i += 1;
        }
    }
    assert(out@ =~= pct_from(bytes@, 0));
    utf8_lossy(out.as_slice())
}

/// A `key=value` part of a query string, each side percent-decoded (no `=`: empty value).
pub open spec fn query_pair(part: Seq<char>) -> (Seq<char>, Seq<char>) {
    let e = find_from(part, '=', 0);
    (
        percent_decoded(part.take(e as int)),
        percent_decoded(if e < part.len() { part.skip((e + 1) as int) } else { seq![] }),
    )
}

/// The decoded pairs of the `&`-separated parts of `s[p..]`, empty parts skipped.
pub open spec fn query_pairs_from(s: Seq<char>, p: nat) -> Seq<(Seq<char>, Seq<char>)>
    decreases s.len() + 1 - p,
{
    if p > s.len() {
        seq![]
    } else {
        let k = find_from(s, '&', p);
        let part = s.subrange(p as int, k as int);
        let here: Seq<(Seq<char>, Seq<char>)> = if part.len() == 0 { seq![] } else { seq![query_pair(part)] };
        if k < s.len() {
            proof {
                lemma_find_from_bounds(s, '&', p);
            }
            here + query_pairs_from(s, k + 1)
        } else {
            here
        }
    }
}

/// Parsed query-string parameters, in order.
#[derive(Debug, Default)]
pub struct Query {
    pairs: Vec<(String, String)>,
}

pub open spec fn pair_views(v: Seq<(String, String)>) -> Seq<(Seq<char>, Seq<char>)> {
    v.map_values(|p: (String, String)| (p.0@, p.1@))
}

/// The value of the first pair named `key`.
pub open spec fn lookup_pair(pairs: Seq<(Seq<char>, Seq<char>)>, key: Seq<char>) -> Option<Seq<char>>
    decreases pairs.len(),
{
    if pairs.len() == 0 {
        None
    } else if pairs[0].0 == key {
        Some(pairs[0].1)
    } else {
        lookup_pair(pairs.drop_first(), key)
    }
}

impl Query {
    pub closed spec fn pairs(&self) -> Seq<(Seq<char>, Seq<char>)> {
        pair_views(self.pairs@)
    }

    /// Splits a raw query string on `&` and `=`, percent-decoding keys and values.
    pub fn parse(raw: &str) -> (q: Self)
        ensures
            q.pairs() == query_pairs_from(raw@, 0),
    {
        let v = chars(raw);
        let mut pairs: Vec<(String, String)> = Vec::new();
        let mut p: usize = 0;
        loop
            invariant
                p <= v.len(),
                v@ == raw@,
                pair_views(pairs@) + query_pairs_from(v@, p as nat) == query_pairs_from(v@, 0),
            decreases v.len() - p,
        {
            let k = find_char_from(&v, '&', p);
            proof {
                lemma_find_from_bounds(v@, '&', p as nat);
            }
            let ghost part = v@.subrange(p as int, k as int);
            let ghost before = pair_views(pairs@);
            if k > p {
                let pv = crate::config::slice_chars_pub(&v, p, k);
                let e = find_char_from(&pv, '=', 0);
                proof {
                    lemma_find_from_bounds(pv@, '=', 0);
                }
                let ps = crate::text::string_of(&pv);
                let key_raw = ps.as_str().substring_char(0, e);
                let key = percent_decode(key_raw);
                let val = if e < pv.len() {
                    let vr = ps.as_str().substring_char(e + 1, pv.len());
                    assert(vr@ =~= part.skip((e + 1) as int));
                    percent_decode(vr)
                } else {
                    let vr = ps.as_str().substring_char(0, 0);
                    assert(vr@ =~= Seq::<char>::empty());
                    percent_decode(vr)
                };
                assert(key_raw@ =~= part.take(e as int));
                pairs.push((key, val));
                assert(pair_views(pairs@) =~= before.push(query_pair(part)));
            }
            if k >= v.len() {
                assert(pair_views(pairs@) =~= query_pairs_from(v@, 0));
                return Query { pairs };
            }
            assert(pair_views(pairs@) + query_pairs_from(v@, (k + 1) as nat) =~= query_pairs_from(v@, 0));
            p = k + 1;
        }
    }

    /// The value of the first parameter named `key`.
    pub fn get(&self, key: &str) -> (r: Option<&str>)
        ensures
            match lookup_pair(self.pairs(), key@) {
                None => r is None,
                Some(v) => r matches Some(s) && s@ == v,
            },
    {
        let mut i: usize = 0;
        assert(self.pairs().skip(0) =~= self.pairs());
        while i < self.pairs.len()
            invariant
                i <= self.pairs.len(),
                lookup_pair(self.pairs(), key@) == lookup_pair(self.pairs().skip(i as int), key@),
            decreases self.pairs.len() - i,
        {
            assert(self.pairs().skip(i as int).drop_first() =~= self.pairs().skip(i + 1));
            if crate::text::str_eq(self.pairs[i].0.as_str(), key) {
                return Some(self.pairs[i].1.as_str());
            }
            i += 1;
        }
        None
    }
}

// ---------------------------------------------------------------------------
// Reading a bounded request.

/// The largest header block the view listener reads.
pub const MAX_HTTP_HEAD: usize = 8_192;

/// The largest request the view listener reads: a full header block and body.
pub const MAX_REQUEST: usize = 24_576;

/// The largest single read.
pub const READ_CHUNK: usize = 4_096;

/// Why a request is refused while it is read.
#[derive(Debug, Clone, Copy, PartialEq, Eq, Structural)]
pub enum ReadError {
    HeadersTooLarge,
    BodyTooLarge,
    TooLarge,
    EndedEarly,
}

impl ReadError {
    pub open spec fn spec_message(&self) -> Seq<char> {
        match self {
            ReadError::HeadersTooLarge => "view request headers too large"@,
            ReadError::BodyTooLarge => "view request body too large"@,
            ReadError::TooLarge => "view request exceeds bounded request size"@,
            ReadError::EndedEarly => "view request ended before declared content length"@,
        }
    }

    pub fn message(&self) -> (s: &'static str)
        ensures
            s@ == self.spec_message(),
    {
        match self {
            ReadError::HeadersTooLarge => "view request headers too large",
            ReadError::BodyTooLarge => "view request body too large",
            ReadError::TooLarge => "view request exceeds bounded request size",
            ReadError::EndedEarly => "view request ended before declared content length",
        }
    }
}

/// What to do with the bytes of a request read so far.
#[derive(Debug, Clone, Copy, PartialEq, Eq, Structural)]
pub enum ReadStep {
    /// The request is the first `n` bytes.
    Complete(usize),
    /// Read at most this many more bytes.
    Read(usize),
    Refuse(ReadError),
}

/// The next read while no complete request has arrived.
pub open spec fn more_spec(len: nat) -> ReadStep {
    if len >= MAX_REQUEST {
        ReadStep::Refuse(ReadError::TooLarge)
    } else if MAX_REQUEST - len < READ_CHUNK {
        ReadStep::Read((MAX_REQUEST - len) as usize)
    } else {
        ReadStep::Read(READ_CHUNK)
    }
}

/// The step after reading `req`: once the header block is in, the request is complete
/// when its declared body is; headers over 8 KiB and bodies over 16 KiB are refused.
pub open spec fn read_step_spec(req: Seq<u8>) -> ReadStep {
    match header_end_spec(req) {
        Some(he) => if he > MAX_HTTP_HEAD {
            ReadStep::Refuse(ReadError::HeadersTooLarge)
        } else {
            let bl: nat = match content_length_spec(lossy_text(req.take(he as int))) {
                Some(n) => n as nat,
                None => 0,
            };
            if bl > MAX_POST_BODY {
                ReadStep::Refuse(ReadError::BodyTooLarge)
            } else if req.len() >= he + bl {
                ReadStep::Complete((he + bl) as usize)
            } else {
                more_spec(req.len())
            }
        },
        None => if req.len() >= MAX_HTTP_HEAD {
            ReadStep::Refuse(ReadError::HeadersTooLarge)
        } else {
            more_spec(req.len())
        },
    }
}

fn more(len: usize) -> (r: ReadStep)
    ensures
        r == more_spec(len as nat),
{
    if len >= MAX_REQUEST {
        ReadStep::Refuse(ReadError::TooLarge)
    } else if MAX_REQUEST - len < READ_CHUNK {
        ReadStep::Read(MAX_REQUEST - len)
    } else {
        ReadStep::Read(READ_CHUNK)
    }
}

/// Decides what to do with the bytes of a view request read so far.
pub fn read_step(req: &[u8]) -> (r: ReadStep)
    ensures
        r == read_step_spec(req@),
{
    match find_header_end(req) {
        Some(he) => {
            if he > MAX_HTTP_HEAD {
                return ReadStep::Refuse(ReadError::HeadersTooLarge);
            }
            let head_bytes = slice_prefix(req, he);
            let head = utf8_lossy(head_bytes.as_slice());
            let bl: usize = match content_length(head.as_str()) {
                Some(n) => n,
                None => 0,
            };
            if bl > MAX_POST_BODY {
                return ReadStep::Refuse(ReadError::BodyTooLarge);
            }
            if req.len() >= he + bl {
                ReadStep::Complete(he + bl)
            } else {
                more(req.len())
            }
        },
        None => {
            if req.len() >= MAX_HTTP_HEAD {
                ReadStep::Refuse(ReadError::HeadersTooLarge)
            } else {
                more(req.len())
            }
        },
    }
}

fn slice_prefix(b: &[u8], n: usize) -> (r: Vec<u8>)
    requires
        n <= b@.len(),
    ensures
        r@ == b@.take(n as int),
{
    let mut r: Vec<u8> = Vec::new();
    let mut i: usize = 0;
    while i < n
        invariant
            i <= n <= b@.len(),
            r@ == b@.take(i as int),
        decreases n - i,
    {
        r.push(b[i]);
        i += 1;
        assert(r@ =~= b@.take(i as int));
    }
    r
}

/// Whether bytes handed over by another listener fit a bounded request.
pub fn prefix_fits(len: usize) -> (b: bool)
    ensures
        b == (len <= MAX_REQUEST),
{
    len <= MAX_REQUEST
}

/// The outcome when the peer closes: nothing read is a quiet close, anything else an
/// unfinished request.
pub fn on_eof(len: usize) -> (r: Result<(), ReadError>)
    ensures
        len == 0 ==> r is Ok,
        len > 0 ==> r == Err::<(), ReadError>(ReadError::EndedEarly),
{
    if len == 0 {
        Ok(())
    } else {
        Err(ReadError::EndedEarly)
    }
}

/// A completed request never exceeds the bound: a header block of at most 8 KiB and a
/// body of at most 16 KiB.
pub proof fn lemma_complete_request_is_bounded(req: Seq<u8>)
    ensures
        read_step_spec(req) matches ReadStep::Complete(n) ==> n <= MAX_REQUEST && n <= req.len(),
        read_step_spec(req) matches ReadStep::Read(k) ==> 0 < k <= READ_CHUNK && req.len() + k <= MAX_REQUEST,
{
}

/// A query key reads the value of its first pair, and nothing only when no pair has
/// that key.
pub proof fn lemma_lookup_pair_is_first(pairs: Seq<(Seq<char>, Seq<char>)>, key: Seq<char>)
    ensures
        lookup_pair(pairs, key) is None <==> forall|j: int| 0 <= j < pairs.len() ==> (#[trigger] pairs[j]).0 != key,
        lookup_pair(pairs, key) is Some ==> exists|k: int| 0 <= k < pairs.len() && (#[trigger] pairs[k]).0 == key
            && lookup_pair(pairs, key) == Some(pairs[k].1) && forall|j: int| 0 <= j < k ==> (#[trigger] pairs[j]).0 != key,
    decreases pairs.len(),
{
    if pairs.len() > 0 {
        let rest = pairs.drop_first();
        lemma_lookup_pair_is_first(rest, key);
        assert forall|j: int| 0 <= j < rest.len() implies rest[j] == pairs[j + 1] by {}
        if pairs[0].0 != key {
            if lookup_pair(rest, key) is Some {
                let k = choose|k: int| 0 <= k < rest.len() && (#[trigger] rest[k]).0 == key
                    && lookup_pair(rest, key) == Some(rest[k].1) && forall|j: int| 0 <= j < k ==> (#[trigger] rest[j]).0 != key;
                assert(pairs[k + 1] == rest[k]);
                assert forall|j: int| 0 <= j < k + 1 implies (#[trigger] pairs[j]).0 != key by {
                    if j > 0 {
                        assert(pairs[j] == rest[j - 1]);
                    }
                }
            } else {
                assert forall|j: int| 0 <= j < pairs.len() implies (#[trigger] pairs[j]).0 != key by {
                    if j > 0 {
                        assert(pairs[j] == rest[j - 1]);
                    }
                }
            }
        } else {
            assert(pairs[0].0 == key);
        }
    }
}

} // verus!
