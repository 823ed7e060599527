//! The view listener's decisions: which handler a request goes to, the fixed replies,
//! the query parameters of `/v1/books` and `/v1/tape`, the instrument a stream follows,
//! static asset paths, the response head, replay read parameters and alert webhooks.

use vstd::prelude::*;

use crate::venue_config::VenueConfig;
use crate::text::{
    chars, concat2, concat3, decimal, decimal_string, ends_with, has_sub, parse_u32, parse_u32_str,
    parse_usize, parse_usize_str, starts_with, str_contains, str_ends_with, str_eq, str_has_char,
    str_starts_with,
};

verus! {

broadcast use vstd::string::group_string_axioms;

/// The handler a view request goes to.
#[derive(Debug, Clone, Copy, PartialEq, Eq, Structural)]
pub enum ViewRoute {
    /// `HEAD /v1/replay`: an empty JSON reply.
    ReplayProbe,
    /// A `GET`/`HEAD` while the view plane is not running.
    Unavailable,
    Status,
    Instruments,
    Books,
    Tape,
    ReplayFiles,
    Replay,
    Live,
    Ready,
    Metrics,
    Static,
    AlertTest,
    MethodNotAllowed,
}

/// The handler of a `GET` or `HEAD` for `path` while the view plane runs.
pub open spec fn get_route_spec(path: Seq<char>) -> ViewRoute {
    if path == "/v1/status"@ {
        ViewRoute::Status
    } else if path == "/v1/instruments"@ {
        ViewRoute::Instruments
    } else if path == "/v1/books"@ {
        ViewRoute::Books
    } else if path == "/v1/tape"@ {
        ViewRoute::Tape
    } else if path == "/v1/replay/files"@ || path == "/v1/replay/list"@ {
        ViewRoute::ReplayFiles
    } else if path == "/v1/replay"@ {
        ViewRoute::Replay
    } else if path == "/live"@ {
        ViewRoute::Live
    } else if path == "/ready"@ {
        ViewRoute::Ready
    } else if path == "/metrics"@ {
        ViewRoute::Metrics
    } else {
        ViewRoute::Static
    }
}

/// The handler of a request with `method` and `path`.
pub open spec fn view_route_spec(method: Seq<char>, path: Seq<char>, view_running: bool) -> ViewRoute {
    if method == "HEAD"@ && path == "/v1/replay"@ {
        ViewRoute::ReplayProbe
    } else if method == "GET"@ || method == "HEAD"@ {
        if view_running {
            get_route_spec(path)
        } else {
            ViewRoute::Unavailable
        }
    } else if method == "POST"@ && path == "/v1/alerts/test"@ {
        ViewRoute::AlertTest
    } else {
        ViewRoute::MethodNotAllowed
    }
}

fn get_route(path: &str) -> (r: ViewRoute)
    ensures
        r == get_route_spec(path@),
{
    if str_eq(path, "/v1/status") {
        ViewRoute::Status
    } else if str_eq(path, "/v1/instruments") {
        ViewRoute::Instruments
    } else if str_eq(path, "/v1/books") {
        ViewRoute::Books
    } else if str_eq(path, "/v1/tape") {
        ViewRoute::Tape
    } else if str_eq(path, "/v1/replay/files") || str_eq(path, "/v1/replay/list") {
        ViewRoute::ReplayFiles
    } else if str_eq(path, "/v1/replay") {
        ViewRoute::Replay
    } else if str_eq(path, "/live") {
        ViewRoute::Live
    } else if str_eq(path, "/ready") {
        ViewRoute::Ready
    } else if str_eq(path, "/metrics") {
        ViewRoute::Metrics
    } else {
        ViewRoute::Static
    }
}

/// Picks the handler of a view request.
pub fn classify_view_request(method: &str, path: &str, view_running: bool) -> (r: ViewRoute)
    ensures
        r == view_route_spec(method@, path@, view_running),
{
    if str_eq(method, "HEAD") && str_eq(path, "/v1/replay") {
        ViewRoute::ReplayProbe
    } else if str_eq(method, "GET") || str_eq(method, "HEAD") {
        if view_running {
            get_route(path)
        } else {
            ViewRoute::Unavailable
        }
    } else if str_eq(method, "POST") && str_eq(path, "/v1/alerts/test") {
        ViewRoute::AlertTest
    } else {
        ViewRoute::MethodNotAllowed
    }
}

/// Status, content type and body of the handlers whose reply never varies.
pub open spec fn fixed_reply_spec(route: ViewRoute) -> Option<(u16, Seq<char>, Seq<char>)> {
    match route {
        ViewRoute::ReplayProbe => Some((200u16, "application/json; charset=utf-8"@, ""@)),
        ViewRoute::Unavailable => Some((503u16, "text/plain; charset=utf-8"@, "view plane unavailable\n"@)),
        ViewRoute::MethodNotAllowed => Some((405u16, "text/plain; charset=utf-8"@, "method not allowed\n"@)),
        _ => None,
    }
}

pub open spec fn reply_view(r: Option<(u16, &'static str, &'static str)>) -> Option<(u16, Seq<char>, Seq<char>)> {
    match r {
        None => None,
        Some((s, ct, b)) => Some((s, ct@, b@)),
    }
}

pub fn fixed_view_reply(route: ViewRoute) -> (r: Option<(u16, &'static str, &'static str)>)
    ensures
        reply_view(r) == fixed_reply_spec(route),
{
    match route {
        ViewRoute::ReplayProbe => Some((200, "application/json; charset=utf-8", "")),
        ViewRoute::Unavailable => Some((503, "text/plain; charset=utf-8", "view plane unavailable\n")),
        ViewRoute::MethodNotAllowed => Some((405, "text/plain; charset=utf-8", "method not allowed\n")),
        _ => None,
    }
}

/// The head of a view reply: status line and headers, up to the blank line.
pub open spec fn view_head_spec(status: u16, content_type: Seq<char>, body_len: nat) -> Seq<char> {
    "HTTP/1.1 "@ + decimal(status as nat) + "\r\ncontent-type: "@ + content_type
        + "\r\ncontent-length: "@ + decimal(body_len)
        + "\r\naccess-control-allow-origin: *\r\ncache-control: no-store\r\nconnection: close\r\n\r\n"@
}

/// Renders the head of a view reply; `body_len` is the body's length in bytes.
pub fn view_response_head(status: u16, content_type: &str, body_len: usize) -> (r: String)
    ensures
        r@ == view_head_spec(status, content_type@, body_len as nat),
{
    let st = decimal_string(status as u128);
    let mut r = concat3("HTTP/1.1 ", st.as_str(), "\r\ncontent-type: ");
    r.append(content_type);
    r.append("\r\ncontent-length: ");
    let n = decimal_string(body_len as u128);
    r.append(n.as_str());
    r.append("\r\naccess-control-allow-origin: *\r\ncache-control: no-store\r\nconnection: close\r\n\r\n");
    r
}

// ---------------------------------------------------------------------------
// Static assets.

/// A relative asset path that passes the text rules: not empty, not absolute, free of
/// NUL, backslashes and `..`.
pub open spec fn safe_static_rel(rel: Seq<char>) -> bool {
    &&& rel.len() > 0
    &&& rel[0] != '/'
    &&& rel[0] != '\\'
    &&& !rel.contains('\0')
    &&& !has_sub(rel, ".."@)
    &&& !rel.contains('\\')
}

/// The kind of one path component, as `std::path::Component` names them.
#[derive(Debug, Clone, Copy, PartialEq, Eq, Structural)]
pub enum PathPart {
    Prefix,
    RootDir,
    CurDir,
    ParentDir,
    Normal,
}

/// Components that stay under the root: no drive prefix, root or parent directory.
pub open spec fn parts_stay_inside(parts: Seq<PathPart>) -> bool {
    forall|i: int| 0 <= i < parts.len() ==> (#[trigger] parts[i] == PathPart::CurDir || parts[i] == PathPart::Normal)
}

/// `std::path::Path::components` of `rel`, each component by its kind. How a path splits
/// depends on the platform (a drive prefix such as `C:` is one only on Windows); the
/// contract claims only what holds on every platform: a path that passes the text rules
/// and holds no `:` has no prefix (a drive needs `:`, other prefixes a leading `\`), no
/// root (no leading `/` or `\`) and no parent directory (no `..`).
#[verifier::external_body]
fn path_parts(rel: &str) -> (r: Vec<PathPart>)
    ensures
        safe_static_rel(rel@) && !rel@.contains(':') ==> parts_stay_inside(r@),
{
    std::path::Path::new(rel).components().map(|c| match c {
        std::path::Component::Prefix(_) => PathPart::Prefix,
        std::path::Component::RootDir => PathPart::RootDir,
        std::path::Component::CurDir => PathPart::CurDir,
        std::path::Component::ParentDir => PathPart::ParentDir,
        std::path::Component::Normal(_) => PathPart::Normal,
    }).collect()
}

/// Whether `rel`, whose components the platform splits into `parts`, may be looked up
/// under the asset root: it passes the text rules and no component leaves the root.
pub fn static_rel_allowed(rel: &str, parts: &Vec<PathPart>) -> (r: bool)
    ensures
        r == (safe_static_rel(rel@) && parts_stay_inside(parts@)),
{
    if !text_rules_pass(rel) {
        return false;
    }
    let mut i: usize = 0;
    while i < parts.len()
        invariant
            i <= parts@.len(),
            forall|k: int| 0 <= k < i ==> (#[trigger] parts@[k] == PathPart::CurDir || parts@[k] == PathPart::Normal),
        decreases parts.len() - i,
    {
        let p = parts[i];
        if !(p == PathPart::CurDir || p == PathPart::Normal) {
            assert(!(parts@[i as int] == PathPart::CurDir || parts@[i as int] == PathPart::Normal));
            return false;
        }
        i += 1;
    }
    true
}

fn text_rules_pass(rel: &str) -> (r: bool)
    ensures
        r == safe_static_rel(rel@),
{
    let v = chars(rel);
    if v.len() == 0 || v[0] == '/' || v[0] == '\\' {
        return false;
    }
    if str_has_char(rel, '\0') || str_contains(rel, "..") || str_has_char(rel, '\\') {
        return false;
    }
    true
}

/// Whether `rel` may be looked up under the asset root: it must pass the text rules
/// (`safe_static_rel`), and then none of the components the platform splits it into may
/// be a drive prefix, the root or a parent directory (see `static_rel_allowed`). A path
/// that passes the text rules and holds no `:` is accepted on every platform.
pub fn is_safe_static_rel(rel: &str) -> (r: bool)
    ensures
        r ==> safe_static_rel(rel@),
        !safe_static_rel(rel@) ==> !r,
        safe_static_rel(rel@) && !rel@.contains(':') ==> r,
{
    if !text_rules_pass(rel) {
        return false;
    }
    let parts = path_parts(rel);
    static_rel_allowed(rel, &parts)
}

/// The asset path a request path names: `/` and `/index.html` the index page, any other
/// absolute path itself without its leading `/`.
pub open spec fn static_rel_spec(path: Seq<char>) -> Option<Seq<char>> {
    if path == "/"@ || path == "/index.html"@ {
        Some("index.html"@)
    } else if path.len() > 0 && path[0] == '/' {
        Some(path.skip(1))
    } else {
        None
    }
}

pub fn static_rel(path: &str) -> (r: Option<&str>)
    ensures
        match static_rel_spec(path@) {
            None => r is None,
            Some(rel) => r matches Some(s) && s@ == rel,
        },
{
    if str_eq(path, "/") || str_eq(path, "/index.html") {
        return Some("index.html");
    }
    let v = chars(path);
    if v.len() > 0 && v[0] == '/' {
        let rest = path.substring_char(1, v.len());
        Some(rest)
    } else {
        None
    }
}

/// The content type served for an asset, by its extension.
pub open spec fn content_type_spec(rel: Seq<char>) -> Seq<char> {
    if ends_with(rel, ".js"@) {
        "application/javascript; charset=utf-8"@
    } else if ends_with(rel, ".css"@) {
        "text/css; charset=utf-8"@
    } else if ends_with(rel, ".svg"@) {
        "image/svg+xml"@
    } else if ends_with(rel, ".html"@) {
        "text/html; charset=utf-8"@
    } else {
        "application/octet-stream"@
    }
}

pub fn content_type(rel: &str) -> (r: &'static str)
    ensures
        r@ == content_type_spec(rel@),
{
    if str_ends_with(rel, ".js") {
        "application/javascript; charset=utf-8"
    } else if str_ends_with(rel, ".css") {
        "text/css; charset=utf-8"
    } else if str_ends_with(rel, ".svg") {
        "image/svg+xml"
    } else if str_ends_with(rel, ".html") {
        "text/html; charset=utf-8"
    } else {
        "application/octet-stream"
    }
}

/// The assets built into the binary, with their content types.
pub open spec fn embedded_asset_spec(rel: Seq<char>) -> Option<Seq<char>> {
    if rel == "index.html"@ {
        Some("text/html; charset=utf-8"@)
    } else if rel == "assets/app.js"@ {
        Some("application/javascript; charset=utf-8"@)
    } else if rel == "assets/app.css"@ {
        Some("text/css; charset=utf-8"@)
    } else {
        None
    }
}

/// The content type of a built-in asset, if `rel` names one.
pub fn embedded_asset_type(rel: &str) -> (r: Option<&'static str>)
    ensures
        match embedded_asset_spec(rel@) {
            None => r is None,
            Some(ct) => r matches Some(s) && s@ == ct,
        },
{
    if str_eq(rel, "index.html") {
        Some("text/html; charset=utf-8")
    } else if str_eq(rel, "assets/app.js") {
        Some("application/javascript; charset=utf-8")
    } else if str_eq(rel, "assets/app.css") {
        Some("text/css; charset=utf-8")
    } else {
        None
    }
}

// ---------------------------------------------------------------------------
// Query parameters of the book and tape endpoints.

/// The book depth asked for: the `depth` parameter when it is a `u32`, else 25.
pub open spec fn book_depth_spec(raw: Option<Seq<char>>) -> u32 {
    match raw {
        Some(s) => match parse_u32(s) {
            Some(d) => d,
            None => 25,
        },
        None => 25,
    }
}

pub open spec fn opt_str_view(o: Option<&str>) -> Option<Seq<char>> {
    match o {
        None => None,
        Some(s) => Some(s@),
    }
}

pub fn book_depth(raw: Option<&str>) -> (d: u32)
    ensures
        d == book_depth_spec(opt_str_view(raw)),
{
    match raw {
        Some(s) => match parse_u32_str(s) {
            Some(d) => d,
            None => 25,
        },
        None => 25,
    }
}

/// The number of tape entries asked for: the `limit` parameter (50 when absent or not a
/// number), clamped to `1..=500`.
pub open spec fn tape_limit_spec(raw: Option<Seq<char>>) -> usize {
    let n: usize = match raw {
        Some(s) => match parse_usize(s) {
            Some(n) => n,
            None => 50,
        },
        None => 50,
    };
    if n < 1 {
        1
    } else if n > 500 {
        500
    } else {
        n
    }
}

pub fn tape_limit(raw: Option<&str>) -> (n: usize)
    ensures
        n == tape_limit_spec(opt_str_view(raw)),
        1 <= n <= 500,
{
    let n: usize = match raw {
        Some(s) => match parse_usize_str(s) {
            Some(n) => n,
            None => 50,
        },
        None => 50,
    };
    if n < 1 {
        1
    } else if n > 500 {
        500
    } else {
        n
    }
}

/// The tape kind filter: `trade`, `trades`, `quote` and `quotes` select a kind; `all`,
/// `mixed` and anything else select every entry.
pub open spec fn tape_kind_spec(raw: Option<Seq<char>>) -> Option<Seq<char>> {
    match raw {
        Some(k) => if k == "trade"@ || k == "trades"@ || k == "quote"@ || k == "quotes"@ {
            Some(k)
        } else {
            None
        },
        None => None,
    }
}

pub fn tape_kind(raw: Option<&str>) -> (r: Option<&str>)
    ensures
        opt_str_view(r) == tape_kind_spec(opt_str_view(raw)),
{
    match raw {
        Some(k) => {
            if str_eq(k, "trade") || str_eq(k, "trades") || str_eq(k, "quote") || str_eq(k, "quotes") {
                Some(k)
            } else {
                None
            }
        },
        None => None,
    }
}

/// Which instrument a book or tape request names: the `instrument` parameter when given
/// (which must be a `u32`), else the `symbol` parameter resolved by the view plane
/// (`symbol` is `None` without the parameter, `Some(None)` when the plane knows no such
/// symbol), else instrument 1.
pub open spec fn instrument_choice_spec(instrument: Option<Seq<char>>, symbol: Option<Option<u32>>) -> Result<u32, Seq<char>> {
    match instrument {
        Some(raw) => match parse_u32(raw) {
            Some(id) => Ok(id),
            None => Err("invalid instrument"@),
        },
        None => match symbol {
            Some(Some(id)) => Ok(id),
            Some(None) => Err("unknown symbol"@),
            None => Ok(1u32),
        },
    }
}

pub open spec fn err_view(r: Result<u32, &'static str>) -> Result<u32, Seq<char>> {
    match r {
        Ok(id) => Ok(id),
        Err(m) => Err(m@),
    }
}

pub fn resolve_instrument(instrument: Option<&str>, symbol: Option<Option<u32>>) -> (r: Result<u32, &'static str>)
    ensures
        err_view(r) == instrument_choice_spec(opt_str_view(instrument), symbol),
{
    match instrument {
        Some(raw) => match parse_u32_str(raw) {
            Some(id) => Ok(id),
            None => Err("invalid instrument"),
        },
        None => match symbol {
            Some(Some(id)) => Ok(id),
            Some(None) => Err("unknown symbol"),
            None => Ok(1),
        },
    }
}

// ---------------------------------------------------------------------------
// Alert webhook URLs.

/// Where an alert webhook is sent: the `host:port` to connect to, the `Host` header and
/// the request path.
#[derive(Debug, Clone, PartialEq, Eq)]
pub struct ParsedHttpUrl {
    pub addr: String,
    pub host: String,
    pub path: String,
}

/// `http://authority/path`: the authority up to the first `/` after the scheme, and the
/// rest as the path (`/` when there is none). Other schemes are refused.
pub open spec fn http_url_spec(url: Seq<char>) -> Result<(Seq<char>, Seq<char>), Seq<char>> {
    if !starts_with(url, "http://"@) {
        Err("only http:// URLs supported"@)
    } else {
        let rest = url.skip(7);
        let k = crate::http::find_from(rest, '/', 0);
        if k < rest.len() {
            Ok((rest.take(k as int), "/"@ + rest.skip((k + 1) as int)))
        } else {
            Ok((rest, "/"@))
        }
    }
}

pub open spec fn url_view(r: Result<ParsedHttpUrl, String>) -> Result<(Seq<char>, Seq<char>), Seq<char>> {
    match r {
        Ok(u) => Ok((u.addr@, u.path@)),
        Err(m) => Err(m@),
    }
}

pub fn parse_http_url(url: &str) -> (r: Result<ParsedHttpUrl, String>)
    ensures
        url_view(r) == http_url_spec(url@),
        r matches Ok(u) ==> u.host@ == u.addr@,
{
    proof {
        reveal_strlit("http://");
    }
    if !str_starts_with(url, "http://") {
        return Err(String::from_str("only http:// URLs supported"));
    }
    let v = chars(url);
    let rest = url.substring_char(7, v.len());
    let rv = chars(rest);
    let k = crate::http::find_char_from(&rv, '/', 0);
    proof {
        crate::http::lemma_find_from_bounds(rv@, '/', 0);
    }
    if k < rv.len() {
        let authority = rest.substring_char(0, k);
        let tail = rest.substring_char(k + 1, rv.len());
        let path = crate::text::concat2("/", tail);
        assert(authority@ =~= rest@.take(k as int));
        assert(tail@ =~= rest@.skip(k + 1));
        Ok(ParsedHttpUrl { addr: String::from_str(authority), host: String::from_str(authority), path })
    } else {
        Ok(ParsedHttpUrl { addr: String::from_str(rest), host: String::from_str(rest), path: String::from_str("/") })
    }
}

// ---------------------------------------------------------------------------
// The instrument a live stream follows.

/// The venue, instrument and symbol a stream client follows.
#[derive(Debug, Clone, PartialEq, Eq)]
pub struct StreamFocus {
    pub venue: String,
    pub instrument: u32,
    pub symbol: Option<String>,
}

/// The index of the first of `syms[i..]` that contains `asset`.
pub open spec fn first_symbol_with(syms: Seq<String>, asset: Seq<char>, i: nat) -> Option<nat>
    decreases syms.len() - i,
{
    if i >= syms.len() {
        None
    } else if has_sub(syms[i as int]@, asset) {
        Some(i)
    } else {
        first_symbol_with(syms, asset, i + 1)
    }
}

/// The focus an `asset` parameter selects among `venues[j..]`: the first symbol that
/// contains it, or BTC-USD on a synthetic venue without symbols.
pub open spec fn asset_focus(venues: Seq<VenueConfig>, asset: Seq<char>, j: nat) -> Option<(Seq<char>, u32, Option<Seq<char>>)>
    decreases venues.len() - j,
{
    if j >= venues.len() {
        None
    } else {
        let v = venues[j as int];
        match first_symbol_with(v.symbols@, asset, 0) {
            Some(i) => Some((v.id@, (i + 1) as u32, Some(v.symbols@[i as int]@))),
            None => if v.symbols@.len() == 0 && v.adapter@ == "synthetic"@ && asset == "BTC"@ {
                Some((v.id@, 1u32, Some("BTC-USD"@)))
            } else {
                asset_focus(venues, asset, j + 1)
            },
        }
    }
}

/// The first venue's first instrument, the default focus.
pub open spec fn default_focus(venues: Seq<VenueConfig>) -> Option<(Seq<char>, u32, Option<Seq<char>>)> {
    if venues.len() == 0 {
        None
    } else {
        Some((
            venues[0].id@,
            1u32,
            if venues[0].symbols@.len() > 0 { Some(venues[0].symbols@[0]@) } else { None },
        ))
    }
}

/// The focus of a stream request: `venue` and `symbol` together name it (`resolved` is
/// the view plane's instrument for them, `None` when it knows none); else `asset` picks
/// the first venue symbol containing it; else the first venue.
pub open spec fn focus_spec(
    venues: Seq<VenueConfig>,
    venue: Option<Seq<char>>,
    symbol: Option<Seq<char>>,
    resolved: Option<u32>,
    asset: Option<Seq<char>>,
) -> Option<(Seq<char>, u32, Option<Seq<char>>)> {
    if venue is Some && symbol is Some {
        match resolved {
            None => None,
            Some(id) => Some((venue->0, id, Some(symbol->0))),
        }
    } else {
        match asset {
            Some(a) => match asset_focus(venues, a, 0) {
                Some(f) => Some(f),
                None => default_focus(venues),
            },
            None => default_focus(venues),
        }
    }
}

pub open spec fn focus_view(f: Option<StreamFocus>) -> Option<(Seq<char>, u32, Option<Seq<char>>)> {
    match f {
        None => None,
        Some(f) => Some((f.venue@, f.instrument, crate::config::opt_view(f.symbol))),
    }
}

fn first_symbol_index(syms: &Vec<String>, asset: &str) -> (r: Option<usize>)
    ensures
        match first_symbol_with(syms@, asset@, 0) {
            None => r is None,
            Some(i) => r == Some(i as usize) && i < syms@.len(),
        },
{
    let mut i: usize = 0;
    while i < syms.len()
        invariant
            i <= syms.len(),
            first_symbol_with(syms@, asset@, 0) == first_symbol_with(syms@, asset@, i as nat),
        decreases syms.len() - i,
    {
        if str_contains(syms[i].as_str(), asset) {
            return Some(i);
        }
        i += 1;
    }
    None
}

fn clone_opt_first(syms: &Vec<String>) -> (r: Option<String>)
    ensures
        crate::config::opt_view(r) == (if syms@.len() > 0 { Some(syms@[0]@) } else { None::<Seq<char>> }),
{
    if syms.len() > 0 {
        Some(syms[0].clone())
    } else {
        None
    }
}

/// Picks the instrument a stream follows (see `focus_spec`).
pub fn stream_focus(
    venues: &Vec<VenueConfig>,
    venue: Option<&str>,
    symbol: Option<&str>,
    resolved: Option<u32>,
    asset: Option<&str>,
) -> (r: Option<StreamFocus>)
    requires
        forall|j: int| 0 <= j < venues@.len() ==> venues@[j].symbols@.len() < u32::MAX,
    ensures
        focus_view(r) == focus_spec(venues@, opt_str_view(venue), opt_str_view(symbol), resolved, opt_str_view(asset)),
{
    if let (Some(v), Some(sym)) = (venue, symbol) {
        return match resolved {
            None => None,
            Some(id) => Some(StreamFocus { venue: String::from_str(v), instrument: id, symbol: Some(String::from_str(sym)) }),
        };
    }
    if let Some(a) = asset {
        let mut j: usize = 0;
        while j < venues.len()
            invariant
                j <= venues.len(),
                !(venue is Some && symbol is Some),
                asset == Some(a),
                forall|k: int| 0 <= k < venues@.len() ==> venues@[k].symbols@.len() < u32::MAX,
                asset_focus(venues@, a@, 0) == asset_focus(venues@, a@, j as nat),
            decreases venues.len() - j,
        {
            let v = &venues[j];
            match first_symbol_index(&v.symbols, a) {
                Some(i) => {
                    assert(v.symbols@.len() < u32::MAX);
                    let id: u32 = (i as u32) + 1;
                    return Some(StreamFocus { venue: v.id.clone(), instrument: id, symbol: Some(v.symbols[i].clone()) });
                },
                None => {
                    if v.symbols.len() == 0 && str_eq(v.adapter.as_str(), "synthetic") && str_eq(a, "BTC") {
                        return Some(StreamFocus { venue: v.id.clone(), instrument: 1, symbol: Some(String::from_str("BTC-USD")) });
                    }
                },
            }
            j += 1;
        }
    }
    if venues.len() == 0 {
        None
    } else {
        Some(StreamFocus { venue: venues[0].id.clone(), instrument: 1, symbol: clone_opt_first(&venues[0].symbols) })
    }
}

// ---------------------------------------------------------------------------
// Connections, replay reads and alert tests.

/// How the view listener treats a connection, before the ordinary routes.
#[derive(Debug, Clone, Copy, PartialEq, Eq, Structural)]
pub enum ConnRoute {
    /// `HEAD /v1/stream`: the event-stream probe.
    StreamProbe,
    /// `GET /v1/stream`: a server-sent event stream.
    Stream,
    /// `POST /v1/alerts/test`.
    AlertTest,
    /// Every other request.
    Request,
}

pub open spec fn conn_route_spec(method: Seq<char>, path: Seq<char>) -> ConnRoute {
    if method == "HEAD"@ && path == "/v1/stream"@ {
        ConnRoute::StreamProbe
    } else if method == "GET"@ && path == "/v1/stream"@ {
        ConnRoute::Stream
    } else if method == "POST"@ && path == "/v1/alerts/test"@ {
        ConnRoute::AlertTest
    } else {
        ConnRoute::Request
    }
}

pub fn classify_connection(method: &str, path: &str) -> (r: ConnRoute)
    ensures
        r == conn_route_spec(method@, path@),
{
    if str_eq(method, "HEAD") && str_eq(path, "/v1/stream") {
        ConnRoute::StreamProbe
    } else if str_eq(method, "GET") && str_eq(path, "/v1/stream") {
        ConnRoute::Stream
    } else if str_eq(method, "POST") && str_eq(path, "/v1/alerts/test") {
        ConnRoute::AlertTest
    } else {
        ConnRoute::Request
    }
}

/// The reply to the event-stream probe: no body, and the stream's content type.
pub fn stream_probe_reply() -> (s: &'static str)
    ensures
        s@ == "HTTP/1.1 200 OK\r\ncontent-type: text/event-stream\r\ncache-control: no-store\r\naccess-control-allow-origin: *\r\ncontent-length: 0\r\nconnection: close\r\n\r\n"@,
{
    "HTTP/1.1 200 OK\r\ncontent-type: text/event-stream\r\ncache-control: no-store\r\naccess-control-allow-origin: *\r\ncontent-length: 0\r\nconnection: close\r\n\r\n"
}

/// The parameters of a replay read: the file (required), the offset (0 unless a `u64`
/// is given) and the limit (100 unless a `u64` is given).
pub open spec fn replay_params_spec(file: Option<Seq<char>>, offset: Option<Seq<char>>, limit: Option<Seq<char>>) -> Result<(Seq<char>, u64, u64), Seq<char>> {
    match file {
        None => Err("missing file"@),
        Some(f) => Ok((
            f,
            match offset {
                Some(o) => match crate::text::parse_u64(o) {
                    Some(n) => n,
                    None => 0,
                },
                None => 0,
            },
            match limit {
                Some(l) => match crate::text::parse_u64(l) {
                    Some(n) => n,
                    None => 100,
                },
                None => 100,
            },
        )),
    }
}

pub open spec fn params_view(r: Result<(String, u64, u64), &'static str>) -> Result<(Seq<char>, u64, u64), Seq<char>> {
    match r {
        Ok((f, o, l)) => Ok((f@, o, l)),
        Err(m) => Err(m@),
    }
}

fn u64_or(raw: Option<&str>, default: u64) -> (n: u64)
    ensures
        n == match opt_str_view(raw) {
            Some(s) => match crate::text::parse_u64(s) {
                Some(v) => v,
                None => default,
            },
            None => default,
        },
{
    match raw {
        Some(s) => match crate::text::parse_u64_str(s) {
            Some(v) => v,
            None => default,
        },
        None => default,
    }
}

pub fn replay_read_params(file: Option<&str>, offset: Option<&str>, limit: Option<&str>) -> (r: Result<(String, u64, u64), &'static str>)
    ensures
        params_view(r) == replay_params_spec(opt_str_view(file), opt_str_view(offset), opt_str_view(limit)),
{
    match file {
        None => Err("missing file"),
        Some(f) => Ok((String::from_str(f), u64_or(offset, 0), u64_or(limit, 100))),
    }
}

/// The alert kinds the test endpoint accepts.
pub open spec fn alert_kind_ok_spec(kind: Seq<char>) -> bool {
    kind == "discrepancy"@ || kind == "lag"@
}

pub fn alert_kind_ok(kind: &str) -> (b: bool)
    ensures
        b == alert_kind_ok_spec(kind@),
{
    str_eq(kind, "discrepancy") || str_eq(kind, "lag")
}

/// The webhook request: a `POST` of the JSON body to the URL's path.
pub open spec fn webhook_request_spec(path: Seq<char>, host: Seq<char>, body: Seq<char>, body_len: nat) -> Seq<char> {
    "POST "@ + path + " HTTP/1.1\r\nhost: "@ + host + "\r\ncontent-type: application/json\r\ncontent-length: "@
        + decimal(body_len) + "\r\nconnection: close\r\n\r\n"@ + body
}

/// Renders the webhook request; `body_len` is the body's length in bytes.
pub fn webhook_request(url: &ParsedHttpUrl, body: &str, body_len: usize) -> (r: String)
    ensures
        r@ == webhook_request_spec(url.path@, url.host@, body@, body_len as nat),
{
    let mut r = String::from_str("POST ");
    r.append(url.path.as_str());
    r.append(" HTTP/1.1\r\nhost: ");
    r.append(url.host.as_str());
    r.append("\r\ncontent-type: application/json\r\ncontent-length: ");
    let d = decimal_string(body_len as u128);
    r.append(d.as_str());
    r.append("\r\nconnection: close\r\n\r\n");
    r.append(body);
    r
}

/// Whether a webhook answered with success: its status line holds ` 2`.
pub open spec fn webhook_status_spec(resp: Seq<char>) -> Result<(), Seq<char>> {
    let lines = crate::http::lines_from(resp, 0);
    let line = if lines.len() > 0 { lines[0] } else { seq![] };
    if has_sub(line, " 2"@) {
        Ok(())
    } else {
        Err("webhook status: "@ + line)
    }
}

pub fn webhook_status(resp: &str) -> (r: Result<(), String>)
    ensures
        crate::replay::unit_err_view(r) == webhook_status_spec(resp@),
{
    let v = chars(resp);
    let line: &str = match crate::http::first_line_bounds(&v) {
        Some((a, b)) => resp.substring_char(a, b),
        None => resp.substring_char(0, 0),
    };
    proof {
        if crate::http::lines_from(resp@, 0).len() == 0 {
            assert(line@ =~= Seq::<char>::empty());
        }
    }
    if str_contains(line, " 2") {
        Ok(())
    } else {
        Err(concat2("webhook status: ", line))
    }
}

/// An asset picks the first symbol at or after `i` that contains it, and none only when
/// no symbol there contains it.
pub proof fn lemma_first_symbol_with_is_first(syms: Seq<String>, asset: Seq<char>, i: nat)
    ensures
        first_symbol_with(syms, asset, i) matches Some(k) ==> i <= k < syms.len() && has_sub(syms[k as int]@, asset)
            && forall|j: int| i <= j < k ==> !has_sub((#[trigger] syms[j])@, asset),
        first_symbol_with(syms, asset, i) is None ==> forall|j: int| i <= j < syms.len() ==> !has_sub(
            (#[trigger] syms[j])@,
            asset,
        ),
    decreases syms.len() - i,
{
    if i < syms.len() {
        lemma_first_symbol_with_is_first(syms, asset, i + 1);
    }
}

} // verus!
