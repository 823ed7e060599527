use marketfeed_daemon::http::{
    content_length, find_header_end, hex, on_eof, parse_request, percent_decode, prefix_fits, read_step,
    request_body, request_path, Query, ReadError, ReadStep,
};
use marketfeed_daemon::route::{
    alert_kind_ok, book_depth, classify_connection, classify_view_request, content_type, embedded_asset_type,
    fixed_view_reply, is_safe_static_rel, parse_http_url, static_rel_allowed, PathPart, replay_read_params, resolve_instrument, static_rel,
    stream_focus, stream_probe_reply, tape_kind, tape_limit, view_response_head, webhook_request, webhook_status,
    ConnRoute, ViewRoute,
};
use marketfeed_daemon::venue_config::VenueConfig;

fn venue(id: &str, adapter: &str, symbols: &[&str]) -> VenueConfig {
    VenueConfig {
        id: id.to_string(),
        adapter: adapter.to_string(),
        segment: None,
        required: true,
        transport: None,
        symbols: symbols.iter().map(|s| s.to_string()).collect(),
        channels: vec!["trades".to_string()],
        api_key: None,
        api_secret: None,
        passphrase: None,
    }
}

#[test]
fn rejects_unsafe_static_rel_paths() {
    assert!(is_safe_static_rel("index.html"));
    assert!(is_safe_static_rel("assets/app.js"));
    assert!(!is_safe_static_rel("../etc/passwd"));
    assert!(!is_safe_static_rel("assets/../../etc/passwd"));
    assert!(!is_safe_static_rel("/etc/passwd"));
    assert!(!is_safe_static_rel("assets\\app.js"));
    assert!(!is_safe_static_rel(""));
}

#[test]
fn static_paths_and_content_types() {
    assert_eq!(static_rel("/"), Some("index.html"));
    assert_eq!(static_rel("/index.html"), Some("index.html"));
    assert_eq!(static_rel("/assets/app.js"), Some("assets/app.js"));
    assert_eq!(static_rel("relative"), None);
    assert_eq!(content_type("assets/app.js"), "application/javascript; charset=utf-8");
    assert_eq!(content_type("assets/app.css"), "text/css; charset=utf-8");
    assert_eq!(content_type("logo.svg"), "image/svg+xml");
    assert_eq!(content_type("index.html"), "text/html; charset=utf-8");
    assert_eq!(content_type("data.bin"), "application/octet-stream");
    assert_eq!(embedded_asset_type("assets/app.css"), Some("text/css; charset=utf-8"));
    assert_eq!(embedded_asset_type("assets/other.js"), None);
}

#[test]
fn request_line_parts() {
    let req = "GET /v1/books?venue=syn&depth=5 HTTP/1.1\r\nhost: x\r\n\r\n";
    assert_eq!(parse_request(req), Some(("GET", "/v1/books", "venue=syn&depth=5")));
    assert_eq!(request_path(req), Some("/v1/books"));
    assert_eq!(parse_request("GET /live HTTP/1.1\r\n\r\n"), Some(("GET", "/live", "")));
    assert_eq!(parse_request("GARBAGE"), None);
    assert_eq!(parse_request(""), None);
    assert_eq!(request_path("POST /ready?x=1 HTTP/1.1"), Some("/ready"));
}

#[test]
fn content_length_and_body() {
    let req = "POST /v1/alerts/test HTTP/1.1\r\nContent-Length: 5\r\n\r\nhello world";
    assert_eq!(content_length(req), Some(5));
    assert_eq!(request_body(req), Some("hello"));
    let short = "POST / HTTP/1.1\r\ncontent-length: 50\r\n\r\nabc";
    assert_eq!(request_body(short), None);
    let no_length = "POST / HTTP/1.1\r\nhost: x\r\n\r\n{\"kind\":\"lag\"}";
    assert_eq!(content_length(no_length), None);
    assert_eq!(request_body(no_length), Some("{\"kind\":\"lag\"}"));
    assert_eq!(request_body("POST / HTTP/1.1\r\nhost: x\r\n"), None);
    let bad = "POST / HTTP/1.1\r\ncontent-length: many\r\n\r\nabc";
    assert_eq!(content_length(bad), None);
    let huge = "POST / HTTP/1.1\r\ncontent-length: 16385\r\n\r\n";
    assert_eq!(request_body(huge), None);
}

#[test]
fn header_end_and_read_steps() {
    assert_eq!(find_header_end(b"GET / HTTP/1.1\r\n\r\nbody"), Some(18));
    assert_eq!(find_header_end(b"GET / HTTP/1.1\r\n"), None);
    assert_eq!(read_step(b"GET / HTTP/1.1\r\n\r\n"), ReadStep::Complete(18));
    assert_eq!(read_step(b"POST / HTTP/1.1\r\ncontent-length: 4\r\n\r\nab"), ReadStep::Read(4096));
    assert_eq!(read_step(b"POST / HTTP/1.1\r\ncontent-length: 4\r\n\r\nabcdef"), ReadStep::Complete(42));
    assert_eq!(read_step(b"POST / HTTP/1.1\r\ncontent-length: 20000\r\n\r\n"), ReadStep::Refuse(ReadError::BodyTooLarge));
    let no_end = vec![b'a'; 8192];
    assert_eq!(read_step(&no_end), ReadStep::Refuse(ReadError::HeadersTooLarge));
    assert_eq!(ReadError::HeadersTooLarge.message(), "view request headers too large");
    assert!(prefix_fits(24576));
    assert!(!prefix_fits(24577));
    assert_eq!(on_eof(0), Ok(()));
    assert_eq!(on_eof(3), Err(ReadError::EndedEarly));
}

#[test]
fn fragmented_post_waits_for_declared_content_length() {
    let head = b"POST /v1/alerts/test HTTP/1.1\r\nhost: x\r\ncontent-length: 16\r\n\r\n";
    let mut req = head.to_vec();
    assert!(matches!(read_step(&req), ReadStep::Read(_)));
    req.extend_from_slice(b"{\"kind\":");
    assert!(matches!(read_step(&req), ReadStep::Read(_)));
    req.extend_from_slice(b"\"lag\"}\r\n");
    assert_eq!(read_step(&req), ReadStep::Complete(head.len() + 16));
}

#[test]
fn percent_decoding_and_queries() {
    assert_eq!(hex(b'7'), Some(7));
    assert_eq!(hex(b'b'), Some(11));
    assert_eq!(hex(b'F'), Some(15));
    assert_eq!(hex(b'g'), None);
    assert_eq!(percent_decode("BTC%2DUSD+x"), "BTC-USD x");
    assert_eq!(percent_decode("%zz"), "%zz");
    assert_eq!(percent_decode("100%"), "100%");
    assert_eq!(percent_decode("%ff"), "\u{fffd}");
    let q = Query::parse("venue=syn&&symbol=BTC%2FUSD&flag&venue=other");
    assert_eq!(q.get("venue"), Some("syn"));
    assert_eq!(q.get("symbol"), Some("BTC/USD"));
    assert_eq!(q.get("flag"), Some(""));
    assert_eq!(q.get("missing"), None);
}

#[test]
fn view_routes() {
    assert_eq!(classify_view_request("HEAD", "/v1/replay", false), ViewRoute::ReplayProbe);
    assert_eq!(classify_view_request("GET", "/v1/status", true), ViewRoute::Status);
    assert_eq!(classify_view_request("HEAD", "/v1/books", true), ViewRoute::Books);
    assert_eq!(classify_view_request("GET", "/v1/replay/list", true), ViewRoute::ReplayFiles);
    assert_eq!(classify_view_request("GET", "/v1/status", false), ViewRoute::Unavailable);
    assert_eq!(classify_view_request("GET", "/assets/app.js", true), ViewRoute::Static);
    assert_eq!(classify_view_request("POST", "/v1/alerts/test", false), ViewRoute::AlertTest);
    assert_eq!(classify_view_request("DELETE", "/v1/status", true), ViewRoute::MethodNotAllowed);
    assert_eq!(fixed_view_reply(ViewRoute::MethodNotAllowed), Some((405, "text/plain; charset=utf-8", "method not allowed\n")));
    assert_eq!(fixed_view_reply(ViewRoute::Unavailable), Some((503, "text/plain; charset=utf-8", "view plane unavailable\n")));
    assert_eq!(fixed_view_reply(ViewRoute::ReplayProbe), Some((200, "application/json; charset=utf-8", "")));
    assert_eq!(fixed_view_reply(ViewRoute::Books), None);
    assert_eq!(classify_connection("HEAD", "/v1/stream"), ConnRoute::StreamProbe);
    assert_eq!(classify_connection("GET", "/v1/stream"), ConnRoute::Stream);
    assert_eq!(classify_connection("POST", "/v1/alerts/test"), ConnRoute::AlertTest);
    assert_eq!(classify_connection("GET", "/v1/status"), ConnRoute::Request);
    assert!(stream_probe_reply().starts_with("HTTP/1.1 200 OK\r\ncontent-type: text/event-stream\r\n"));
    assert_eq!(
        view_response_head(404, "text/plain; charset=utf-8", 10),
        "HTTP/1.1 404\r\ncontent-type: text/plain; charset=utf-8\r\ncontent-length: 10\r\naccess-control-allow-origin: *\r\ncache-control: no-store\r\nconnection: close\r\n\r\n"
    );
}

#[test]
fn book_and_tape_parameters() {
    assert_eq!(book_depth(None), 25);
    assert_eq!(book_depth(Some("10")), 10);
    assert_eq!(book_depth(Some("deep")), 25);
    assert_eq!(tape_limit(None), 50);
    assert_eq!(tape_limit(Some("0")), 1);
    assert_eq!(tape_limit(Some("9999")), 500);
    assert_eq!(tape_limit(Some("-3")), 50);
    assert_eq!(tape_kind(Some("trades")), Some("trades"));
    assert_eq!(tape_kind(Some("quote")), Some("quote"));
    assert_eq!(tape_kind(Some("all")), None);
    assert_eq!(tape_kind(Some("bogus")), None);
    assert_eq!(resolve_instrument(Some("7"), None), Ok(7));
    assert_eq!(resolve_instrument(Some("x"), Some(Some(3))), Err("invalid instrument"));
    assert_eq!(resolve_instrument(None, Some(Some(3))), Ok(3));
    assert_eq!(resolve_instrument(None, Some(None)), Err("unknown symbol"));
    assert_eq!(resolve_instrument(None, None), Ok(1));
}

#[test]
fn replay_read_parameters_and_alert_kinds() {
    assert_eq!(replay_read_params(None, None, None), Err("missing file"));
    assert_eq!(replay_read_params(Some("a.jsonl"), Some("5"), Some("x")), Ok(("a.jsonl".to_string(), 5, 100)));
    assert_eq!(replay_read_params(Some("a.jsonl"), None, Some("20")), Ok(("a.jsonl".to_string(), 0, 20)));
    assert!(alert_kind_ok("discrepancy"));
    assert!(alert_kind_ok("lag"));
    assert!(!alert_kind_ok("other"));
}

#[test]
fn webhook_urls_requests_and_statuses() {
    let u = parse_http_url("http://127.0.0.1:9000/hooks/alert").unwrap();
    assert_eq!(u.addr, "127.0.0.1:9000");
    assert_eq!(u.host, "127.0.0.1:9000");
    assert_eq!(u.path, "/hooks/alert");
    let bare = parse_http_url("http://example.test").unwrap();
    assert_eq!(bare.path, "/");
    assert_eq!(parse_http_url("https://example.test/x").unwrap_err(), "only http:// URLs supported");
    assert_eq!(
        webhook_request(&u, "{}", 2),
        "POST /hooks/alert HTTP/1.1\r\nhost: 127.0.0.1:9000\r\ncontent-type: application/json\r\ncontent-length: 2\r\nconnection: close\r\n\r\n{}"
    );
    assert_eq!(webhook_status("HTTP/1.1 204 No Content\r\n\r\n"), Ok(()));
    assert_eq!(webhook_status("HTTP/1.1 500 Oops\r\n\r\n"), Err("webhook status: HTTP/1.1 500 Oops".to_string()));
    assert_eq!(webhook_status(""), Err("webhook status: ".to_string()));
}

#[test]
fn stream_focus_choices() {
    let venues = vec![venue("binance-spot", "binance", &["ETHUSDT", "BTCUSDT"]), venue("synthetic-demo", "synthetic", &[])];
    let f = stream_focus(&venues, Some("binance-spot"), Some("BTCUSDT"), Some(2), None).unwrap();
    assert_eq!((f.venue.as_str(), f.instrument, f.symbol.as_deref()), ("binance-spot", 2, Some("BTCUSDT")));
    assert_eq!(stream_focus(&venues, Some("binance-spot"), Some("NOPE"), None, None), None);
    let f = stream_focus(&venues, None, None, None, Some("BTC")).unwrap();
    assert_eq!((f.venue.as_str(), f.instrument, f.symbol.as_deref()), ("binance-spot", 2, Some("BTCUSDT")));
    let only_synthetic = vec![venue("synthetic-demo", "synthetic", &[])];
    let f = stream_focus(&only_synthetic, None, None, None, Some("BTC")).unwrap();
    assert_eq!((f.venue.as_str(), f.instrument, f.symbol.as_deref()), ("synthetic-demo", 1, Some("BTC-USD")));
    let f = stream_focus(&venues, None, None, None, Some("DOGE")).unwrap();
    assert_eq!((f.venue.as_str(), f.instrument, f.symbol.as_deref()), ("binance-spot", 1, Some("ETHUSDT")));
    assert_eq!(stream_focus(&Vec::new(), None, None, None, None), None);
}

#[test]
fn static_paths_may_not_leave_the_root_by_any_component() {
    assert!(static_rel_allowed("assets/./app.js", &vec![PathPart::Normal, PathPart::CurDir, PathPart::Normal]));
    // A drive prefix, as a Windows host splits `C:x`, leaves the root.
    assert!(!static_rel_allowed("C:x", &vec![PathPart::Prefix, PathPart::Normal]));
    assert!(!static_rel_allowed("x", &vec![PathPart::RootDir, PathPart::Normal]));
    assert!(!static_rel_allowed("x", &vec![PathPart::ParentDir]));
    // The text rules come first, whatever the components.
    assert!(!static_rel_allowed("a\\b", &vec![PathPart::Normal]));
    assert!(!static_rel_allowed("", &vec![]));
}
