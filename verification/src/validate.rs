//! Whole-configuration validation: every rule the daemon enforces before it starts,
//! checked in a fixed order, the first violation reported.

use vstd::prelude::*;

use crate::config::{is_validation, ConfigError, DaemonConfig, MAX_DAEMON_EAGER_QUEUE_SLOTS, MAX_DAEMON_QUEUE_CAPACITY, MAX_DAEMON_SINKS};
use crate::queue::OverflowPolicy;
use crate::sink_config::{SinkConfig, SinkKind};
use crate::text::{concat2, concat3, debug_quoted, debug_text, decimal, decimal_string, is_blank, lower, is_padded, str_eq, str_has_char, trim};
use crate::venue_config::{canonical_channel_name, canonical_channel_spec, TransportMode, VenueConfig, VenueKind};

verus! {

/// How an address string parses as a socket address. Parsing is done by the caller,
/// which owns the network types.
pub enum AddrCheck {
    Loopback,
    NonLoopback,
    /// The parse failed, with the parser's message.
    Invalid(String),
}

/// The caller's socket-address parses: of `telemetry.bind`, and of each sink's trimmed
/// `address` (consulted only for `udp` / `kafka` / `nats` sinks that have one).
pub struct AddressChecks {
    pub bind: AddrCheck,
    pub sinks: Vec<AddrCheck>,
}

pub open spec fn opt_msg(r: Option<String>, s: Option<Seq<char>>) -> bool {
    match s {
        None => r is None,
        Some(m) => r matches Some(x) && x@ == m,
    }
}

// ---------------------------------------------------------------------------
// Engine, telemetry and recording.

pub open spec fn engine_issue(c: DaemonConfig, bind: AddrCheck) -> Option<Seq<char>> {
    let p = c.engine.runtime_profile@;
    let f = c.telemetry.log_format@;
    if !(p == "portable"@ || p == "latency"@) {
        Some("unsupported runtime_profile "@ + debug_text(p))
    } else if c.engine.shutdown_deadline_secs == 0 {
        Some("engine.shutdown_deadline_secs must be > 0"@)
    } else if !(f == "json"@ || f == "text"@) {
        Some("telemetry.log_format must be one of [\"json\", \"text\"]"@)
    } else if trim(c.telemetry.log_level@).len() == 0 {
        Some("telemetry.log_level must be non-empty"@)
    } else {
        match bind {
            AddrCheck::Invalid(e) => Some("telemetry.bind: "@ + e@),
            AddrCheck::NonLoopback => Some("telemetry.bind must be loopback (insecure remote binding rejected)"@),
            AddrCheck::Loopback => None,
        }
    }
}

fn check_engine(c: &DaemonConfig, bind: &AddrCheck) -> (r: Option<String>)
    ensures
        opt_msg(r, engine_issue(*c, *bind)),
{
    let p = c.engine.runtime_profile.as_str();
    if !(str_eq(p, "portable") || str_eq(p, "latency")) {
        let q = debug_quoted(p);
        return Some(concat2("unsupported runtime_profile ", q.as_str()));
    }
    if c.engine.shutdown_deadline_secs == 0 {
        return Some(String::from_str("engine.shutdown_deadline_secs must be > 0"));
    }
    let f = c.telemetry.log_format.as_str();
    if !(str_eq(f, "json") || str_eq(f, "text")) {
        return Some(String::from_str("telemetry.log_format must be one of [\"json\", \"text\"]"));
    }
    if is_blank(c.telemetry.log_level.as_str()) {
        return Some(String::from_str("telemetry.log_level must be non-empty"));
    }
    match bind {
        AddrCheck::Invalid(e) => Some(concat2("telemetry.bind: ", e.as_str())),
        AddrCheck::NonLoopback => Some(String::from_str(
            "telemetry.bind must be loopback (insecure remote binding rejected)",
        )),
        AddrCheck::Loopback => None,
    }
}

pub open spec fn recording_issue(c: DaemonConfig) -> Option<Seq<char>> {
    let raw = c.recording.raw;
    if !raw.enabled {
        None
    } else if trim(raw.directory@).len() == 0 {
        Some("recording.raw.directory required when enabled"@)
    } else if raw.segment_size_spec() is Err {
        Some(raw.segment_size_spec()->Err_0)
    } else if raw.segment_duration_spec() is Err {
        Some(raw.segment_duration_spec()->Err_0)
    } else if raw.min_free_spec() is Err {
        Some(raw.min_free_spec()->Err_0)
    } else if raw.overflow_policy_spec() is Err {
        Some(raw.overflow_policy_spec()->Err_0)
    } else if raw.queue_capacity == 0 {
        Some("recording.raw.queue_capacity must be > 0"@)
    } else if raw.queue_capacity > MAX_DAEMON_QUEUE_CAPACITY {
        Some("recording.raw.queue_capacity must be <= 1048576"@)
    } else {
        None
    }
}

/// The validation message carried by `e`.
fn validation_text(e: ConfigError) -> (m: String)
    ensures
        is_validation(e, m@) || !(e is Validation),
{
    match e {
        ConfigError::Validation(m) => m,
        ConfigError::Io(m) => m,
        ConfigError::Parse(m) => m,
    }
}

fn check_recording(c: &DaemonConfig) -> (r: Option<String>)
    ensures
        opt_msg(r, recording_issue(*c)),
{
    let raw = &c.recording.raw;
    if !raw.enabled {
        return None;
    }
    if is_blank(raw.directory.as_str()) {
        return Some(String::from_str("recording.raw.directory required when enabled"));
    }
    match raw.segment_size_bytes() {
        Err(e) => return Some(validation_text(e)),
        Ok(_) => {},
    }
    match raw.segment_duration() {
        Err(e) => return Some(validation_text(e)),
        Ok(_) => {},
    }
    match raw.min_free_bytes() {
        Err(e) => return Some(validation_text(e)),
        Ok(_) => {},
    }
    match raw.overflow_policy() {
        Err(e) => return Some(validation_text(e)),
        Ok(_) => {},
    }
    if raw.queue_capacity == 0 {
        return Some(String::from_str("recording.raw.queue_capacity must be > 0"));
    }
    if raw.queue_capacity > MAX_DAEMON_QUEUE_CAPACITY {
        return Some(String::from_str("recording.raw.queue_capacity must be <= 1048576"));
    }
    None
}

pub open spec fn slots_message(slots: nat) -> Seq<char> {
    "recording and sinks reserve "@ + decimal(slots) + " eager queue slots; maximum is 1048576"@
}

fn slots_text(slots: usize) -> (m: String)
    ensures
        m@ == slots_message(slots as nat),
{
    let n = decimal_string(slots as u128);
    concat3("recording and sinks reserve ", n.as_str(), " eager queue slots; maximum is 1048576")
}

/// Eager queue slots reserved by the recorder (two queues when it is enabled).
pub open spec fn recording_slots(c: DaemonConfig) -> nat {
    if c.recording.raw.enabled { (c.recording.raw.queue_capacity * 2) as nat } else { 0 }
}

// ---------------------------------------------------------------------------
// Readiness and private sessions.

pub open spec fn tail_issue(c: DaemonConfig) -> Option<Seq<char>> {
    if c.readiness.min_live_sessions > 0 && c.venues@.len() == 0 {
        Some("impossible readiness: min_live_sessions > 0 but no venues"@)
    } else if c.readiness.require_recording_healthy && !c.recording.raw.enabled {
        Some("impossible readiness: require_recording_healthy but recording.raw disabled"@)
    } else if c.private.binance_spot.spec_has_toml_secrets() {
        Some("private.binance_spot: secrets must not appear in TOML (use BINANCE_API_KEY / BINANCE_API_SECRET env vars)"@)
    } else if c.private.binance_spot.enabled {
        Some("private.binance_spot: unavailable because Binance retired the listen-key REST/WebSocket flow on 2026-02-20; migrate this integration to the WebSocket API userDataStream.subscribe flow before enabling it"@)
    } else if c.private.okx_spot.spec_has_toml_secrets() {
        Some("private.okx_spot: secrets must not appear in TOML (use OKX_API_KEY / OKX_API_SECRET / OKX_API_PASSPHRASE env vars)"@)
    } else if c.private.bybit_spot.spec_has_toml_secrets() {
        Some("private.bybit_spot: secrets must not appear in TOML (use BYBIT_API_KEY / BYBIT_API_SECRET env vars)"@)
    } else if c.private.okx_spot.enabled || c.private.bybit_spot.enabled {
        Some("private OKX/Bybit daemon sessions are unavailable until a bounded durable account-event sink, private readiness/liveness tracking, and reconnect supervision are implemented; use marketfeed-private with an explicit AccountEventSink instead"@)
    } else {
        None
    }
}

fn check_tail(c: &DaemonConfig) -> (r: Option<String>)
    ensures
        opt_msg(r, tail_issue(*c)),
{
    if c.readiness.min_live_sessions > 0 && c.venues.len() == 0 {
        return Some(String::from_str("impossible readiness: min_live_sessions > 0 but no venues"));
    }
    if c.readiness.require_recording_healthy && !c.recording.raw.enabled {
        return Some(String::from_str("impossible readiness: require_recording_healthy but recording.raw disabled"));
    }
    if c.private.binance_spot.has_toml_secrets() {
        return Some(String::from_str(
            "private.binance_spot: secrets must not appear in TOML (use BINANCE_API_KEY / BINANCE_API_SECRET env vars)",
        ));
    }
    if c.private.binance_spot.enabled {
        return Some(String::from_str(
            "private.binance_spot: unavailable because Binance retired the listen-key REST/WebSocket flow on 2026-02-20; migrate this integration to the WebSocket API userDataStream.subscribe flow before enabling it",
        ));
    }
    if c.private.okx_spot.has_toml_secrets() {
        return Some(String::from_str(
            "private.okx_spot: secrets must not appear in TOML (use OKX_API_KEY / OKX_API_SECRET / OKX_API_PASSPHRASE env vars)",
        ));
    }
    if c.private.bybit_spot.has_toml_secrets() {
        return Some(String::from_str(
            "private.bybit_spot: secrets must not appear in TOML (use BYBIT_API_KEY / BYBIT_API_SECRET env vars)",
        ));
    }
    if c.private.okx_spot.enabled || c.private.bybit_spot.enabled {
        return Some(String::from_str(
            "private OKX/Bybit daemon sessions are unavailable until a bounded durable account-event sink, private readiness/liveness tracking, and reconnect supervision are implemented; use marketfeed-private with an explicit AccountEventSink instead",
        ));
    }
    None
}

// ---------------------------------------------------------------------------
// Seen-name sets.

pub open spec fn names(v: Seq<String>) -> Seq<Seq<char>> {
    v.map_values(|s: String| s@)
}

fn seen_contains(seen: &Vec<String>, x: &str) -> (r: bool)
    ensures
        r == names(seen@).contains(x@),
{
    let mut i: usize = 0;
    while i < seen.len()
        invariant
            i <= seen.len(),
            forall|k: int| 0 <= k < i ==> seen@[k]@ != x@,
        decreases seen.len() - i,
    {
        if str_eq(seen[i].as_str(), x) {
            assert(names(seen@)[i as int] == x@);
            return true;
        }
        i += 1;
    }
    assert forall|k: int| 0 <= k < names(seen@).len() implies names(seen@)[k] != x@ by {
        assert(names(seen@)[k] == seen@[k]@);
    }
    false
}

fn seen_insert(seen: &mut Vec<String>, x: &str)
    ensures
        names(final(seen)@) == names(old(seen)@).push(x@),
{
    seen.push(String::from_str(x));
    assert(names(seen@) =~= names(old(seen)@).push(x@));
}

// ---------------------------------------------------------------------------
// Sinks.

pub open spec fn idx_label(prefix: Seq<char>, i: nat) -> Seq<char> {
    prefix + "["@ + decimal(i) + "]"@
}

pub open spec fn sink_id_step(s: SinkConfig, i: nat, seen: Seq<Seq<char>>) -> Result<Seq<Seq<char>>, Seq<char>> {
    match s.id {
        None => Ok(seen),
        Some(id) => {
            let l = idx_label("sinks"@, i);
            if trim(id@).len() == 0 {
                Err(l + ".id must be non-empty when provided"@)
            } else if trim(id@) != id@ {
                Err(l + ".id must not contain leading or trailing whitespace: "@ + debug_text(id@))
            } else if id@.contains('\0') {
                Err(l + ".id must not contain NUL"@)
            } else if seen.contains(id@) {
                Err("duplicate sink id "@ + debug_text(id@))
            } else {
                Ok(seen.push(id@))
            }
        },
    }
}

pub open spec fn file_like(k: SinkKind) -> bool {
    k == SinkKind::File || k == SinkKind::ProtobufFile || k == SinkKind::ProtobufFileBin || k == SinkKind::SpillWal
}

/// Why a sink's address is unusable: missing, or rejected by the caller's parse.
pub open spec fn address_issue(s: SinkConfig, addr: AddrCheck) -> Option<Seq<char>> {
    match s.address_spec() {
        Err(m) => Some(m),
        Ok(raw) => match addr {
            AddrCheck::Invalid(e) => Some(s.label() + ".address invalid SocketAddr "@ + debug_text(raw) + ": "@ + e@),
            _ => None,
        },
    }
}

/// The per-kind settings rules of a sink.
pub open spec fn kind_issue(s: SinkConfig, kind: SinkKind, policy: OverflowPolicy, i: nat, addr: AddrCheck) -> Option<Seq<char>> {
    let l = idx_label("sinks"@, i);
    if file_like(kind) && s.file_path_spec() is Err {
        Some(s.file_path_spec()->Err_0)
    } else if kind == SinkKind::SpillWal {
        if s.wal_limit_spec() is Err {
            Some(s.wal_limit_spec()->Err_0)
        } else if policy != OverflowPolicy::SpillToDisk {
            Some(l + ".overflow must be spill_to_disk for type=spill-wal (got "@ + policy.spec_name() + ")"@)
        } else {
            Some(l + " type=spill-wal is not a standalone delivery sink: its in-memory prefix has no recovery consumer; attach WAL recovery to a real sink before enabling it in the daemon"@)
        }
    } else if kind == SinkKind::Udp {
        address_issue(s, addr)
    } else if kind == SinkKind::Kafka {
        if address_issue(s, addr) is Some {
            address_issue(s, addr)
        } else if s.kafka_topic_spec() is Err {
            Some(s.kafka_topic_spec()->Err_0)
        } else {
            None
        }
    } else if kind == SinkKind::Nats {
        if address_issue(s, addr) is Some {
            address_issue(s, addr)
        } else if s.nats_subject_spec() is Err {
            Some(s.nats_subject_spec()->Err_0)
        } else {
            None
        }
    } else {
        None
    }
}

/// The rules on one sink after its id; on success, the eager slots reserved so far.
pub open spec fn sink_body(s: SinkConfig, i: nat, slots: nat, addr: AddrCheck) -> Result<nat, Seq<char>> {
    let l = idx_label("sinks"@, i);
    if s.required && s.id is None {
        Err(l + " required sink must have an explicit id"@)
    } else if s.kind_spec() is Err {
        Err(s.kind_spec()->Err_0)
    } else if s.overflow_policy_spec() is Err {
        Err(s.overflow_policy_spec()->Err_0)
    } else {
        let kind = s.kind_spec()->Ok_0;
        let policy = s.overflow_policy_spec()->Ok_0;
        let next = (slots + s.capacity * 3) as nat;
        if s.required && policy != OverflowPolicy::FailEngine {
            Err(l + " required sink must use overflow=fail_engine (got "@ + policy.spec_name() + ")"@)
        } else if s.capacity == 0 {
            Err(l + ".capacity must be > 0"@)
        } else if s.capacity > MAX_DAEMON_QUEUE_CAPACITY {
            Err(l + ".capacity must be <= 1048576"@)
        } else if next > MAX_DAEMON_EAGER_QUEUE_SLOTS {
            Err(slots_message(next))
        } else if kind_issue(s, kind, policy, i, addr) is Some {
            Err(kind_issue(s, kind, policy, i, addr)->Some_0)
        } else {
            Ok(next)
        }
    }
}

/// The first sink rule broken by `sinks[i..]`, given the ids seen and slots reserved before.
pub open spec fn sinks_issue_from(sinks: Seq<SinkConfig>, addrs: Seq<AddrCheck>, i: nat, seen: Seq<Seq<char>>, slots: nat) -> Option<Seq<char>>
    decreases sinks.len() - i,
{
    if i >= sinks.len() {
        None
    } else {
        match sink_id_step(sinks[i as int], i, seen) {
            Err(m) => Some(m),
            Ok(seen2) => match sink_body(sinks[i as int], i, slots, addrs[i as int]) {
                Err(m) => Some(m),
                Ok(next) => sinks_issue_from(sinks, addrs, i + 1, seen2, next),
            },
        }
    }
}

fn label_at(prefix: &str, i: usize) -> (m: String)
    ensures
        m@ == idx_label(prefix@, i as nat),
{
    let n = decimal_string(i as u128);
    let mut m = concat3(prefix, "[", n.as_str());
    m.append("]");
    m
}

fn check_sink_id(s: &SinkConfig, i: usize, seen: &mut Vec<String>) -> (r: Option<String>)
    ensures
        match sink_id_step(*s, i as nat, names(old(seen)@)) {
            Ok(next) => r is None && names(final(seen)@) == next,
            Err(m) => r matches Some(x) && x@ == m,
        },
{
    match &s.id {
        None => None,
        Some(id) => {
            let id = id.as_str();
            if is_blank(id) {
                let l = label_at("sinks", i);
                return Some(concat2(l.as_str(), ".id must be non-empty when provided"));
            }
            if is_padded(id) {
                let l = label_at("sinks", i);
                let q = debug_quoted(id);
                return Some(concat3(l.as_str(), ".id must not contain leading or trailing whitespace: ", q.as_str()));
            }
            if str_has_char(id, '\0') {
                let l = label_at("sinks", i);
                return Some(concat2(l.as_str(), ".id must not contain NUL"));
            }
            if seen_contains(seen, id) {
                let q = debug_quoted(id);
                return Some(concat2("duplicate sink id ", q.as_str()));
            }
            seen_insert(seen, id);
            None
        },
    }
}

fn check_address(s: &SinkConfig, addr: &AddrCheck) -> (r: Option<String>)
    ensures
        opt_msg(r, address_issue(*s, *addr)),
{
    match s.address_text() {
        Err(e) => Some(validation_text(e)),
        Ok(raw) => match addr {
            AddrCheck::Invalid(e) => {
                let l = s.label_text();
                let q = debug_quoted(raw);
                let mut m = concat3(l.as_str(), ".address invalid SocketAddr ", q.as_str());
                m.append(": ");
                m.append(e.as_str());
                Some(m)
            },
            _ => None,
        },
    }
}

fn check_kind(s: &SinkConfig, kind: SinkKind, policy: OverflowPolicy, i: usize, addr: &AddrCheck) -> (r: Option<String>)
    ensures
        opt_msg(r, kind_issue(*s, kind, policy, i as nat, *addr)),
{
    if kind == SinkKind::File || kind == SinkKind::ProtobufFile || kind == SinkKind::ProtobufFileBin
        || kind == SinkKind::SpillWal {
        match s.file_path() {
            Err(e) => return Some(validation_text(e)),
            Ok(_) => {},
        }
    }
    if kind == SinkKind::SpillWal {
        match s.wal_limit_bytes() {
            Err(e) => return Some(validation_text(e)),
            Ok(_) => {},
        }
        let l = label_at("sinks", i);
        if policy != OverflowPolicy::SpillToDisk {
            let mut m = concat3(l.as_str(), ".overflow must be spill_to_disk for type=spill-wal (got ", policy.name());
            m.append(")");
            return Some(m);
        }
        return Some(concat2(
            l.as_str(),
            " type=spill-wal is not a standalone delivery sink: its in-memory prefix has no recovery consumer; attach WAL recovery to a real sink before enabling it in the daemon",
        ));
    }
    if kind == SinkKind::Udp {
        return check_address(s, addr);
    }
    if kind == SinkKind::Kafka {
        let a = check_address(s, addr);
        if a.is_some() {
            return a;
        }
        match s.kafka_topic() {
            Err(e) => return Some(validation_text(e)),
            Ok(_) => return None,
        }
    }
    if kind == SinkKind::Nats {
        let a = check_address(s, addr);
        if a.is_some() {
            return a;
        }
        match s.nats_subject() {
            Err(e) => return Some(validation_text(e)),
            Ok(_) => return None,
        }
    }
    None
}

fn check_sink_body(s: &SinkConfig, i: usize, slots: usize, addr: &AddrCheck) -> (r: Result<usize, String>)
    requires
        slots <= MAX_DAEMON_EAGER_QUEUE_SLOTS,
    ensures
        match sink_body(*s, i as nat, slots as nat, *addr) {
            Ok(next) => r == Ok::<usize, String>(next as usize) && next <= MAX_DAEMON_EAGER_QUEUE_SLOTS,
            Err(m) => r matches Err(x) && x@ == m,
        },
{
    if s.required && s.id.is_none() {
        let l = label_at("sinks", i);
        return Err(concat2(l.as_str(), " required sink must have an explicit id"));
    }
    let kind = match s.kind() {
        Err(e) => return Err(validation_text(e)),
        Ok(k) => k,
    };
    let policy = match s.overflow_policy() {
        Err(e) => return Err(validation_text(e)),
        Ok(p) => p,
    };
    if s.required && policy != OverflowPolicy::FailEngine {
        let l = label_at("sinks", i);
        let mut m = concat3(l.as_str(), " required sink must use overflow=fail_engine (got ", policy.name());
        m.append(")");
        return Err(m);
    }
    if s.capacity == 0 {
        let l = label_at("sinks", i);
        return Err(concat2(l.as_str(), ".capacity must be > 0"));
    }
    if s.capacity > MAX_DAEMON_QUEUE_CAPACITY {
        let l = label_at("sinks", i);
        return Err(concat2(l.as_str(), ".capacity must be <= 1048576"));
    }
    let next = slots + s.capacity * 3;
    if next > MAX_DAEMON_EAGER_QUEUE_SLOTS {
        return Err(slots_text(next));
    }
    match check_kind(s, kind, policy, i, addr) {
        Some(m) => Err(m),
        None => Ok(next),
    }
}

fn check_sinks(c: &DaemonConfig, addrs: &Vec<AddrCheck>, start_slots: usize) -> (r: Option<String>)
    requires
        addrs.len() == c.sinks.len(),
        start_slots <= MAX_DAEMON_EAGER_QUEUE_SLOTS,
    ensures
        opt_msg(r, sinks_issue_from(c.sinks@, addrs@, 0, Seq::empty(), start_slots as nat)),
{
    let mut seen: Vec<String> = Vec::new();
    let mut slots: usize = start_slots;
    let mut i: usize = 0;
    assert(names(seen@) =~= Seq::<Seq<char>>::empty());
    while i < c.sinks.len()
        invariant
            i <= c.sinks.len(),
            addrs.len() == c.sinks.len(),
            slots <= MAX_DAEMON_EAGER_QUEUE_SLOTS,
            sinks_issue_from(c.sinks@, addrs@, 0, Seq::empty(), start_slots as nat)
                == sinks_issue_from(c.sinks@, addrs@, i as nat, names(seen@), slots as nat),
        decreases c.sinks.len() - i,
    {
        let s = &c.sinks[i];
        match check_sink_id(s, i, &mut seen) {
            Some(m) => return Some(m),
            None => {},
        }
        match check_sink_body(s, i, slots, &addrs[i]) {
            Err(m) => return Some(m),
            Ok(next) => {
                slots = next;
            },
        }
        i += 1;
    }
    None
}

// ---------------------------------------------------------------------------
// Venues.

pub open spec fn known_adapter(a: Seq<char>) -> bool {
    a == "binance"@ || a == "okx"@ || a == "bybit"@ || a == "kraken"@ || a == "deribit"@ || a == "bitstamp"@
        || a == "gemini"@ || a == "coinbase"@ || a == "bitfinex"@ || a == "synthetic"@
}

fn is_known_adapter(a: &str) -> (b: bool)
    ensures
        b == known_adapter(a@),
{
    str_eq(a, "binance") || str_eq(a, "okx") || str_eq(a, "bybit") || str_eq(a, "kraken") || str_eq(a, "deribit")
        || str_eq(a, "bitstamp") || str_eq(a, "gemini") || str_eq(a, "coinbase") || str_eq(a, "bitfinex")
        || str_eq(a, "synthetic")
}

pub open spec fn venue_id_step(v: VenueConfig, i: nat, seen: Seq<Seq<char>>) -> Result<Seq<Seq<char>>, Seq<char>> {
    let l = idx_label("venues"@, i);
    if trim(v.id@).len() == 0 {
        Err(l + ".id must be non-empty (got "@ + debug_text(v.id@) + ")"@)
    } else if trim(v.id@) != v.id@ {
        Err(l + ".id must not contain leading or trailing whitespace: "@ + debug_text(v.id@))
    } else if seen.contains(v.id@) {
        Err("duplicate venue id "@ + debug_text(v.id@) + " at "@ + l)
    } else {
        Ok(seen.push(v.id@))
    }
}

pub open spec fn venue_prefix(v: VenueConfig) -> Seq<char> {
    "venue "@ + v.id@ + ": "@
}

/// The first rule broken by `symbols[i..]`, given the symbols seen before.
pub open spec fn symbols_issue_from(v: VenueConfig, i: nat, seen: Seq<Seq<char>>) -> Option<Seq<char>>
    decreases v.symbols@.len() - i,
{
    if i >= v.symbols@.len() {
        None
    } else {
        let sym = v.symbols@[i as int]@;
        if trim(sym).len() == 0 {
            Some(venue_prefix(v) + "symbols contains blank value "@ + debug_text(sym))
        } else if trim(sym) != sym {
            Some(venue_prefix(v) + "symbol must not contain leading or trailing whitespace: "@ + debug_text(sym))
        } else if seen.contains(sym) {
            Some(venue_prefix(v) + "duplicate symbol "@ + debug_text(sym))
        } else {
            symbols_issue_from(v, i + 1, seen.push(sym))
        }
    }
}

/// The first rule broken by `channels[i..]`, given the canonical channels seen before.
pub open spec fn channels_issue_from(v: VenueConfig, i: nat, seen: Seq<Seq<char>>) -> Option<Seq<char>>
    decreases v.channels@.len() - i,
{
    if i >= v.channels@.len() {
        None
    } else {
        let ch = v.channels@[i as int]@;
        if trim(ch).len() == 0 {
            Some(venue_prefix(v) + "channels contains blank value "@ + debug_text(ch))
        } else if trim(ch) != ch {
            Some(venue_prefix(v) + "channel must not contain leading or trailing whitespace: "@ + debug_text(ch))
        } else {
            match canonical_channel_spec(ch) {
                None => Some(venue_prefix(v) + "unknown channel "@ + debug_text(ch)),
                Some(canon) => if seen.contains(canon) {
                    Some(venue_prefix(v) + "duplicate channel "@ + debug_text(ch) + " (canonical "@ + debug_text(canon) + ")"@)
                } else {
                    channels_issue_from(v, i + 1, seen.push(canon))
                },
            }
        }
    }
}

/// The rules on one venue after its id.
pub open spec fn venue_body(v: VenueConfig) -> Option<Seq<char>> {
    let pre = venue_prefix(v);
    if !known_adapter(v.adapter@) {
        Some("unknown adapter "@ + debug_text(v.adapter@) + " for venue "@ + v.id@)
    } else if v.kind_spec() is Err {
        Some(v.kind_spec()->Err_0)
    } else {
        let kind = v.kind_spec()->Ok_0;
        let transport = v.transport_spec();
        if kind == VenueKind::CoinbaseSpot && v.spec_has_toml_secrets() {
            Some(pre + "coinbase-spot secrets must not appear in TOML (use COINBASE_EXCHANGE_API_KEY / COINBASE_EXCHANGE_API_SECRET / COINBASE_EXCHANGE_API_PASSPHRASE env vars)"@)
        } else if kind == VenueKind::CoinbaseIntl && v.spec_has_toml_secrets() {
            Some(pre + "coinbase-intl secrets must not appear in TOML (use COINBASE_INTL_API_KEY / COINBASE_INTL_API_SECRET / COINBASE_INTL_API_PASSPHRASE env vars)"@)
        } else if kind == VenueKind::Synthetic && transport == TransportMode::Live {
            Some(pre + "synthetic requires transport=memory"@)
        } else if kind != VenueKind::Synthetic && transport == TransportMode::Memory {
            Some(pre + "adapter "@ + debug_text(v.adapter@) + " requires transport=live"@)
        } else if kind != VenueKind::Synthetic && v.symbols@.len() == 0 {
            Some(pre + "symbols must be non-empty"@)
        } else if kind != VenueKind::Synthetic && v.channels@.len() == 0 {
            Some(pre + "channels must be non-empty"@)
        } else if symbols_issue_from(v, 0, Seq::empty()) is Some {
            symbols_issue_from(v, 0, Seq::empty())
        } else {
            channels_issue_from(v, 0, Seq::empty())
        }
    }
}

/// The first venue rule broken by `venues[i..]`, given the venue ids seen before.
pub open spec fn venues_issue_from(venues: Seq<VenueConfig>, i: nat, seen: Seq<Seq<char>>) -> Option<Seq<char>>
    decreases venues.len() - i,
{
    if i >= venues.len() {
        None
    } else {
        match venue_id_step(venues[i as int], i, seen) {
            Err(m) => Some(m),
            Ok(seen2) => if venue_body(venues[i as int]) is Some {
                venue_body(venues[i as int])
            } else {
                venues_issue_from(venues, i + 1, seen2)
            },
        }
    }
}

fn venue_msg(v: &VenueConfig, rest: &str) -> (m: String)
    ensures
        m@ == venue_prefix(*v) + rest@,
{
    let mut m = concat3("venue ", v.id.as_str(), ": ");
    m.append(rest);
    m
}

fn venue_msg_quoted(v: &VenueConfig, rest: &str, shown: &str) -> (m: String)
    ensures
        m@ == venue_prefix(*v) + rest@ + debug_text(shown@),
{
    let q = debug_quoted(shown);
    let mut m = venue_msg(v, rest);
    m.append(q.as_str());
    m
}

fn check_symbols(v: &VenueConfig) -> (r: Option<String>)
    ensures
        opt_msg(r, symbols_issue_from(*v, 0, Seq::empty())),
{
    let mut seen: Vec<String> = Vec::new();
    let mut i: usize = 0;
    assert(names(seen@) =~= Seq::<Seq<char>>::empty());
    while i < v.symbols.len()
        invariant
            i <= v.symbols.len(),
            symbols_issue_from(*v, 0, Seq::empty()) == symbols_issue_from(*v, i as nat, names(seen@)),
        decreases v.symbols.len() - i,
    {
        let sym = v.symbols[i].as_str();
        if is_blank(sym) {
            return Some(venue_msg_quoted(v, "symbols contains blank value ", sym));
        }
        if is_padded(sym) {
            return Some(venue_msg_quoted(v, "symbol must not contain leading or trailing whitespace: ", sym));
        }
        if seen_contains(&seen, sym) {
            return Some(venue_msg_quoted(v, "duplicate symbol ", sym));
        }
        seen_insert(&mut seen, sym);
        i += 1;
    }
    None
}

fn check_channels(v: &VenueConfig) -> (r: Option<String>)
    ensures
        opt_msg(r, channels_issue_from(*v, 0, Seq::empty())),
{
    let mut seen: Vec<String> = Vec::new();
    let mut i: usize = 0;
    assert(names(seen@) =~= Seq::<Seq<char>>::empty());
    while i < v.channels.len()
        invariant
            i <= v.channels.len(),
            channels_issue_from(*v, 0, Seq::empty()) == channels_issue_from(*v, i as nat, names(seen@)),
        decreases v.channels.len() - i,
    {
        let ch = v.channels[i].as_str();
        if is_blank(ch) {
            return Some(venue_msg_quoted(v, "channels contains blank value ", ch));
        }
        if is_padded(ch) {
            return Some(venue_msg_quoted(v, "channel must not contain leading or trailing whitespace: ", ch));
        }
        match canonical_channel_name(ch) {
            None => return Some(venue_msg_quoted(v, "unknown channel ", ch)),
            Some(canon) => {
                if seen_contains(&seen, canon) {
                    let mut m = venue_msg_quoted(v, "duplicate channel ", ch);
                    let q = debug_quoted(canon);
                    m.append(" (canonical ");
                    m.append(q.as_str());
                    m.append(")");
                    return Some(m);
                }
                seen_insert(&mut seen, canon);
            },
        }
        i += 1;
    }
    None
}

fn check_venue_body(v: &VenueConfig) -> (r: Option<String>)
    ensures
        opt_msg(r, venue_body(*v)),
{
    if !is_known_adapter(v.adapter.as_str()) {
        let q = debug_quoted(v.adapter.as_str());
        let mut m = concat3("unknown adapter ", q.as_str(), " for venue ");
        m.append(v.id.as_str());
        return Some(m);
    }
    let kind = match v.resolved_kind() {
        Err(e) => return Some(validation_text(e)),
        Ok(k) => k,
    };
    if kind == VenueKind::CoinbaseSpot && v.has_toml_secrets() {
        return Some(venue_msg(v, "coinbase-spot secrets must not appear in TOML (use COINBASE_EXCHANGE_API_KEY / COINBASE_EXCHANGE_API_SECRET / COINBASE_EXCHANGE_API_PASSPHRASE env vars)"));
    }
    if kind == VenueKind::CoinbaseIntl && v.has_toml_secrets() {
        return Some(venue_msg(v, "coinbase-intl secrets must not appear in TOML (use COINBASE_INTL_API_KEY / COINBASE_INTL_API_SECRET / COINBASE_INTL_API_PASSPHRASE env vars)"));
    }
    let transport = v.resolved_transport();
    if kind == VenueKind::Synthetic && transport == TransportMode::Live {
        return Some(venue_msg(v, "synthetic requires transport=memory"));
    }
    if kind != VenueKind::Synthetic && transport == TransportMode::Memory {
        let mut m = venue_msg_quoted(v, "adapter ", v.adapter.as_str());
        m.append(" requires transport=live");
        return Some(m);
    }
    if kind != VenueKind::Synthetic && v.symbols.len() == 0 {
        return Some(venue_msg(v, "symbols must be non-empty"));
    }
    if kind != VenueKind::Synthetic && v.channels.len() == 0 {
        return Some(venue_msg(v, "channels must be non-empty"));
    }
    let s = check_symbols(v);
    if s.is_some() {
        return s;
    }
    check_channels(v)
}

fn check_venues(c: &DaemonConfig) -> (r: Option<String>)
    ensures
        opt_msg(r, venues_issue_from(c.venues@, 0, Seq::empty())),
{
    let mut seen: Vec<String> = Vec::new();
    let mut i: usize = 0;
    assert(names(seen@) =~= Seq::<Seq<char>>::empty());
    while i < c.venues.len()
        invariant
            i <= c.venues.len(),
            venues_issue_from(c.venues@, 0, Seq::empty()) == venues_issue_from(c.venues@, i as nat, names(seen@)),
        decreases c.venues.len() - i,
    {
        let v = &c.venues[i];
        let id = v.id.as_str();
        if is_blank(id) {
            let l = label_at("venues", i);
            let q = debug_quoted(id);
            let mut m = concat3(l.as_str(), ".id must be non-empty (got ", q.as_str());
            m.append(")");
            return Some(m);
        }
        if is_padded(id) {
            let l = label_at("venues", i);
            let q = debug_quoted(id);
            return Some(concat3(l.as_str(), ".id must not contain leading or trailing whitespace: ", q.as_str()));
        }
        if seen_contains(&seen, id) {
            let l = label_at("venues", i);
            let q = debug_quoted(id);
            let mut m = concat3("duplicate venue id ", q.as_str(), " at ");
            m.append(l.as_str());
            return Some(m);
        }
        seen_insert(&mut seen, id);
        let b = check_venue_body(v);
        if b.is_some() {
            return b;
        }
        i += 1;
    }
    None
}

// ---------------------------------------------------------------------------
// The whole configuration.

/// The first rule the configuration breaks, in the order the daemon checks them, or
/// `None` when it is valid.
pub open spec fn config_issue(c: DaemonConfig, checks: AddressChecks) -> Option<Seq<char>> {
    if engine_issue(c, checks.bind) is Some {
        engine_issue(c, checks.bind)
    } else if recording_issue(c) is Some {
        recording_issue(c)
    } else if c.sinks@.len() > MAX_DAEMON_SINKS {
        Some("sinks must contain at most 64 entries"@)
    } else if recording_slots(c) > MAX_DAEMON_EAGER_QUEUE_SLOTS {
        Some(slots_message(recording_slots(c)))
    } else if sinks_issue_from(c.sinks@, checks.sinks@, 0, Seq::empty(), recording_slots(c)) is Some {
        sinks_issue_from(c.sinks@, checks.sinks@, 0, Seq::empty(), recording_slots(c))
    } else if venues_issue_from(c.venues@, 0, Seq::empty()) is Some {
        venues_issue_from(c.venues@, 0, Seq::empty())
    } else {
        tail_issue(c)
    }
}

impl DaemonConfig {
    /// Checks every rule on the configuration. `checks` holds the caller's parse of the
    /// bind address and of each sink's address, in sink order.
    pub fn validate(&self, checks: &AddressChecks) -> (r: Result<(), ConfigError>)
        requires
            checks.sinks.len() == self.sinks.len(),
        ensures
            match config_issue(*self, *checks) {
                None => r is Ok,
                Some(m) => r matches Err(e) && is_validation(e, m),
            },
    {
        match check_engine(self, &checks.bind) {
            Some(m) => return Err(ConfigError::Validation(m)),
            None => {},
        }
        match check_recording(self) {
            Some(m) => return Err(ConfigError::Validation(m)),
            None => {},
        }
        if self.sinks.len() > MAX_DAEMON_SINKS {
            return Err(ConfigError::Validation(String::from_str("sinks must contain at most 64 entries")));
        }
        let slots: usize = if self.recording.raw.enabled { self.recording.raw.queue_capacity * 2 } else { 0 };
        if slots > MAX_DAEMON_EAGER_QUEUE_SLOTS {
            return Err(ConfigError::Validation(slots_text(slots)));
        }
        match check_sinks(self, &checks.sinks, slots) {
            Some(m) => return Err(ConfigError::Validation(m)),
            None => {},
        }
        match check_venues(self) {
            Some(m) => return Err(ConfigError::Validation(m)),
            None => {},
        }
        match check_tail(self) {
            Some(m) => Err(ConfigError::Validation(m)),
            None => Ok(()),
        }
    }
}

// ---------------------------------------------------------------------------
// What a valid configuration guarantees.

proof fn lemma_venues_ok(vs: Seq<VenueConfig>, i: nat, seen: Seq<Seq<char>>)
    requires
        venues_issue_from(vs, i, seen) is None,
    ensures
        forall|j: int, k: int| i <= j < k < vs.len() ==> vs[j].id@ != vs[k].id@,
        forall|j: int| i <= j < vs.len() ==> !seen.contains(#[trigger] vs[j].id@),
        forall|j: int| i <= j < vs.len() ==> venue_body(#[trigger] vs[j]) is None,
        forall|j: int| i <= j < vs.len() ==> trim(#[trigger] vs[j].id@) == vs[j].id@ && vs[j].id@.len() > 0,
    decreases vs.len() - i,
{
    if i < vs.len() {
        let v = vs[i as int];
        let seen2 = seen.push(v.id@);
        lemma_venues_ok(vs, i + 1, seen2);
        assert forall|j: int| i + 1 <= j < vs.len() implies !seen.contains(#[trigger] vs[j].id@) && vs[j].id@
            != v.id@ by {
            assert(!seen2.contains(vs[j].id@));
            if seen.contains(vs[j].id@) {
                let k = choose|k: int| 0 <= k < seen.len() && seen[k] == vs[j].id@;
                assert(seen2[k] == vs[j].id@);
            }
            if vs[j].id@ == v.id@ {
                assert(seen2[seen.len() as int] == v.id@);
            }
        }
    }
}

/// In a configuration that passes validation, venue ids are distinct, non-blank and
/// free of surrounding whitespace, and every venue passes its own rules.
pub proof fn lemma_valid_config_venue_ids_distinct(c: DaemonConfig, checks: AddressChecks)
    requires
        config_issue(c, checks) is None,
    ensures
        forall|j: int, k: int| 0 <= j < k < c.venues@.len() ==> c.venues@[j].id@ != c.venues@[k].id@,
        forall|j: int| 0 <= j < c.venues@.len() ==> trim(#[trigger] c.venues@[j].id@) == c.venues@[j].id@
            && c.venues@[j].id@.len() > 0,
        forall|j: int| 0 <= j < c.venues@.len() ==> venue_body(#[trigger] c.venues@[j]) is None,
{
    lemma_venues_ok(c.venues@, 0, Seq::empty());
}

/// A venue that passes its rules resolves to a kind, uses the transport its kind needs,
/// and, unless synthetic, subscribes to at least one symbol and one channel; Coinbase
/// Exchange and International venues carry no credentials from TOML.
pub proof fn lemma_valid_venue_is_runnable(v: VenueConfig)
    requires
        venue_body(v) is None,
    ensures
        known_adapter(v.adapter@),
        v.kind_spec() is Ok,
        v.kind_spec()->Ok_0 == VenueKind::Synthetic <==> v.transport_spec() == TransportMode::Memory,
        v.kind_spec()->Ok_0 != VenueKind::Synthetic ==> v.symbols@.len() > 0 && v.channels@.len() > 0,
        (v.kind_spec()->Ok_0 == VenueKind::CoinbaseSpot || v.kind_spec()->Ok_0 == VenueKind::CoinbaseIntl)
            ==> !v.spec_has_toml_secrets(),
{
}

/// An optional id that is not among `seen`.
pub open spec fn id_unseen(id: Option<String>, seen: Seq<Seq<char>>) -> bool {
    match id {
        Some(x) => !seen.contains(x@),
        None => true,
    }
}

/// Two optional ids that are not the same id.
pub open spec fn ids_differ(a: Option<String>, b: Option<String>) -> bool {
    match (a, b) {
        (Some(x), Some(y)) => x@ != y@,
        _ => true,
    }
}

proof fn lemma_sinks_ok(sinks: Seq<SinkConfig>, addrs: Seq<AddrCheck>, i: nat, seen: Seq<Seq<char>>, slots: nat)
    requires
        sinks_issue_from(sinks, addrs, i, seen, slots) is None,
    ensures
        forall|j: int| i <= j < sinks.len() ==> (#[trigger] sinks[j]).required ==> sinks[j].id is Some
            && sinks[j].overflow_policy_spec() == Ok::<OverflowPolicy, Seq<char>>(OverflowPolicy::FailEngine),
        forall|j: int| i <= j < sinks.len() ==> 0 < (#[trigger] sinks[j]).capacity <= MAX_DAEMON_QUEUE_CAPACITY,
        forall|j: int| i <= j < sinks.len() ==> id_unseen((#[trigger] sinks[j]).id, seen),
        forall|j: int, k: int| i <= j < k < sinks.len() ==> ids_differ(sinks[j].id, sinks[k].id),
    decreases sinks.len() - i,
{
    if i < sinks.len() {
        let s = sinks[i as int];
        let seen2 = sink_id_step(s, i, seen)->Ok_0;
        let next = sink_body(s, i, slots, addrs[i as int])->Ok_0;
        lemma_sinks_ok(sinks, addrs, i + 1, seen2, next);
        assert forall|j: int| i + 1 <= j < sinks.len() implies id_unseen((#[trigger] sinks[j]).id, seen) && ids_differ(
            s.id,
            sinks[j].id,
        ) by {
            if let Some(id) = sinks[j].id {
                assert(!seen2.contains(id@));
                if seen.contains(id@) {
                    let k = choose|k: int| 0 <= k < seen.len() && seen[k] == id@;
                    assert(seen2[k] == id@);
                }
                if let Some(a) = s.id {
                    if a@ == id@ {
                        assert(seen2[seen.len() as int] == a@);
                    }
                }
            }
        }
    }
}

/// In a configuration that passes validation, every required sink has an explicit id
/// and fails the engine when full, every sink queue is bounded and non-empty, and no two
/// sinks share an id.
pub proof fn lemma_valid_config_sinks_are_safe(c: DaemonConfig, checks: AddressChecks)
    requires
        config_issue(c, checks) is None,
    ensures
        forall|j: int| 0 <= j < c.sinks@.len() ==> (#[trigger] c.sinks@[j]).required ==> c.sinks@[j].id is Some
            && c.sinks@[j].overflow_policy_spec() == Ok::<OverflowPolicy, Seq<char>>(OverflowPolicy::FailEngine),
        forall|j: int| 0 <= j < c.sinks@.len() ==> 0 < (#[trigger] c.sinks@[j]).capacity <= MAX_DAEMON_QUEUE_CAPACITY,
        forall|j: int, k: int| 0 <= j < k < c.sinks@.len() ==> ids_differ(c.sinks@[j].id, c.sinks@[k].id),
        c.sinks@.len() <= MAX_DAEMON_SINKS,
{
    lemma_sinks_ok(c.sinks@, checks.sinks@, 0, Seq::empty(), recording_slots(c));
}

/// A configuration that passes validation holds no credentials for private sessions
/// and enables none of them.
pub proof fn lemma_valid_config_has_no_private_sessions(c: DaemonConfig, checks: AddressChecks)
    requires
        config_issue(c, checks) is None,
    ensures
        !c.private.binance_spot.spec_has_toml_secrets(),
        !c.private.okx_spot.spec_has_toml_secrets(),
        !c.private.bybit_spot.spec_has_toml_secrets(),
        !c.private.binance_spot.enabled && !c.private.okx_spot.enabled && !c.private.bybit_spot.enabled,
{
}

/// A configuration that passes validation binds its listener to loopback.
pub proof fn lemma_valid_config_binds_loopback(c: DaemonConfig, checks: AddressChecks)
    requires
        config_issue(c, checks) is None,
    ensures
        checks.bind == AddrCheck::Loopback,
        c.engine.shutdown_deadline_secs > 0,
{
}

/// The eager queue slots the sinks from `i` on reserve: three per unit of capacity.
pub open spec fn sink_slots_from(sinks: Seq<SinkConfig>, i: nat) -> nat
    decreases sinks.len() - i,
{
    if i >= sinks.len() {
        0
    } else {
        (3 * sinks[i as int].capacity + sink_slots_from(sinks, i + 1)) as nat
    }
}

proof fn lemma_sink_slots(sinks: Seq<SinkConfig>, addrs: Seq<AddrCheck>, i: nat, seen: Seq<Seq<char>>, slots: nat)
    requires
        sinks_issue_from(sinks, addrs, i, seen, slots) is None,
        slots <= MAX_DAEMON_EAGER_QUEUE_SLOTS,
    ensures
        slots + sink_slots_from(sinks, i) <= MAX_DAEMON_EAGER_QUEUE_SLOTS,
    decreases sinks.len() - i,
{
    if i < sinks.len() {
        let s = sinks[i as int];
        let seen2 = sink_id_step(s, i, seen)->Ok_0;
        let next = sink_body(s, i, slots, addrs[i as int])->Ok_0;
        lemma_sink_slots(sinks, addrs, i + 1, seen2, next);
    }
}

/// In a configuration that passes validation, an enabled recorder has a bounded,
/// non-empty queue, and the eager queue slots of the recorder (two queues) and of the
/// sinks (three per unit of capacity) stay within the daemon's bound together.
pub proof fn lemma_valid_config_bounds_eager_slots(c: DaemonConfig, checks: AddressChecks)
    requires
        config_issue(c, checks) is None,
    ensures
        c.recording.raw.enabled ==> 1 <= c.recording.raw.queue_capacity <= MAX_DAEMON_QUEUE_CAPACITY,
        recording_slots(c) + sink_slots_from(c.sinks@, 0) <= MAX_DAEMON_EAGER_QUEUE_SLOTS,
{
    lemma_sink_slots(c.sinks@, checks.sinks@, 0, Seq::empty(), recording_slots(c));
}

proof fn lemma_symbols_ok(v: VenueConfig, i: nat, seen: Seq<Seq<char>>)
    requires
        symbols_issue_from(v, i, seen) is None,
    ensures
        forall|j: int| i <= j < v.symbols@.len() ==> trim(#[trigger] v.symbols@[j]@) == v.symbols@[j]@
            && v.symbols@[j]@.len() > 0 && !seen.contains(v.symbols@[j]@),
        forall|j: int, k: int| i <= j < k < v.symbols@.len() ==> v.symbols@[j]@ != v.symbols@[k]@,
    decreases v.symbols@.len() - i,
{
    if i < v.symbols@.len() {
        let sym = v.symbols@[i as int]@;
        let seen2 = seen.push(sym);
        lemma_symbols_ok(v, i + 1, seen2);
        assert forall|j: int| i + 1 <= j < v.symbols@.len() implies !seen.contains(#[trigger] v.symbols@[j]@)
            && v.symbols@[j]@ != sym by {
            assert(!seen2.contains(v.symbols@[j]@));
            if seen.contains(v.symbols@[j]@) {
                let k = choose|k: int| 0 <= k < seen.len() && seen[k] == v.symbols@[j]@;
                assert(seen2[k] == v.symbols@[j]@);
            }
            if v.symbols@[j]@ == sym {
                assert(seen2[seen.len() as int] == sym);
            }
        }
    }
}

proof fn lemma_channels_ok(v: VenueConfig, i: nat, seen: Seq<Seq<char>>)
    requires
        channels_issue_from(v, i, seen) is None,
    ensures
        forall|j: int| i <= j < v.channels@.len() ==> trim(#[trigger] v.channels@[j]@) == v.channels@[j]@
            && canonical_channel_spec(v.channels@[j]@) is Some
            && !seen.contains(canonical_channel_spec(v.channels@[j]@)->Some_0),
        forall|j: int, k: int| i <= j < k < v.channels@.len() ==> canonical_channel_spec(v.channels@[j]@)
            != canonical_channel_spec(v.channels@[k]@),
    decreases v.channels@.len() - i,
{
    if i < v.channels@.len() {
        let canon = canonical_channel_spec(v.channels@[i as int]@)->Some_0;
        let seen2 = seen.push(canon);
        lemma_channels_ok(v, i + 1, seen2);
        assert forall|j: int| i + 1 <= j < v.channels@.len() implies !seen.contains(
            canonical_channel_spec(#[trigger] v.channels@[j]@)->Some_0,
        ) && canonical_channel_spec(v.channels@[j]@)->Some_0 != canon by {
            let cj = canonical_channel_spec(v.channels@[j]@)->Some_0;
            assert(!seen2.contains(cj));
            if seen.contains(cj) {
                let k = choose|k: int| 0 <= k < seen.len() && seen[k] == cj;
                assert(seen2[k] == cj);
            }
            if cj == canon {
                assert(seen2[seen.len() as int] == canon);
            }
        }
    }
}

/// A venue that passes its rules lists its symbols non-blank, without surrounding
/// whitespace and each once, and its channels without surrounding whitespace, each a
/// known channel, no two naming the same channel.
pub proof fn lemma_valid_venue_lists_are_clean(v: VenueConfig)
    requires
        venue_body(v) is None,
    ensures
        forall|j: int| 0 <= j < v.symbols@.len() ==> trim(#[trigger] v.symbols@[j]@) == v.symbols@[j]@
            && v.symbols@[j]@.len() > 0,
        forall|j: int, k: int| 0 <= j < k < v.symbols@.len() ==> v.symbols@[j]@ != v.symbols@[k]@,
        forall|j: int| 0 <= j < v.channels@.len() ==> trim(#[trigger] v.channels@[j]@) == v.channels@[j]@
            && canonical_channel_spec(v.channels@[j]@) is Some,
        forall|j: int, k: int| 0 <= j < k < v.channels@.len() ==> canonical_channel_spec(v.channels@[j]@)
            != canonical_channel_spec(v.channels@[k]@),
{
    lemma_symbols_ok(v, 0, Seq::empty());
    lemma_channels_ok(v, 0, Seq::empty());
}

/// The rules each sink of a valid configuration meets, given the caller's parse of its
/// address: an explicit id is non-blank, free of surrounding whitespace and of NUL; a
/// required sink has an id and fails the engine when full; its kind resolves and is not
/// the write-ahead log; its overflow policy resolves and is not a blocking one; file
/// sinks have a path, network sinks an address that parsed, Kafka a topic and NATS a
/// subject.
pub open spec fn sink_meets_rules(s: SinkConfig, addr: AddrCheck) -> bool {
    &&& s.id matches Some(id) ==> trim(id@).len() > 0 && trim(id@) == id@ && !id@.contains('\0')
    &&& s.required ==> s.id is Some && s.overflow_policy_spec() == Ok::<OverflowPolicy, Seq<char>>(OverflowPolicy::FailEngine)
    &&& s.kind_spec() is Ok
    &&& s.kind_spec()->Ok_0 != SinkKind::SpillWal
    &&& s.overflow_policy_spec() is Ok
    &&& s.overflow_policy_spec()->Ok_0 != OverflowPolicy::BlockWithDeadline
    &&& file_like(s.kind_spec()->Ok_0) ==> s.file_path_spec() is Ok
    &&& (s.kind_spec()->Ok_0 == SinkKind::Udp || s.kind_spec()->Ok_0 == SinkKind::Kafka || s.kind_spec()->Ok_0
        == SinkKind::Nats) ==> s.address_spec() is Ok && !(addr is Invalid)
    &&& s.kind_spec()->Ok_0 == SinkKind::Kafka ==> s.kafka_topic_spec() is Ok
    &&& s.kind_spec()->Ok_0 == SinkKind::Nats ==> s.nats_subject_spec() is Ok
}

proof fn lemma_sink_rules_from(sinks: Seq<SinkConfig>, addrs: Seq<AddrCheck>, i: nat, seen: Seq<Seq<char>>, slots: nat)
    requires
        sinks_issue_from(sinks, addrs, i, seen, slots) is None,
    ensures
        forall|j: int| i <= j < sinks.len() ==> sink_meets_rules(#[trigger] sinks[j], addrs[j]),
    decreases sinks.len() - i,
{
    if i < sinks.len() {
        let s = sinks[i as int];
        let seen2 = sink_id_step(s, i, seen)->Ok_0;
        let next = sink_body(s, i, slots, addrs[i as int])->Ok_0;
        lemma_sink_rules_from(sinks, addrs, i + 1, seen2, next);
        crate::config::lemma_daemon_overflow_not_blocking(s.label() + ".overflow"@, s.overflow@);
        assert(sink_meets_rules(s, addrs[i as int]));
    }
}

/// Every sink of a configuration that passes validation meets `sink_meets_rules` over
/// the caller's parse of its address.
pub proof fn lemma_valid_config_sinks_meet_rules(c: DaemonConfig, checks: AddressChecks)
    requires
        config_issue(c, checks) is None,
    ensures
        forall|j: int| 0 <= j < c.sinks@.len() ==> sink_meets_rules(#[trigger] c.sinks@[j], checks.sinks@[j]),
{
    lemma_sink_rules_from(c.sinks@, checks.sinks@, 0, Seq::empty(), recording_slots(c));
}

/// A configuration that passes validation names a supported runtime profile, a positive
/// shutdown deadline, a known log format and a non-blank log level, binds to loopback
/// (by the caller's parse), and asks of readiness only what it can give: live sessions
/// need venues, a healthy recorder needs recording enabled.
pub proof fn lemma_valid_config_engine_rules(c: DaemonConfig, checks: AddressChecks)
    requires
        config_issue(c, checks) is None,
    ensures
        c.engine.runtime_profile@ == "portable"@ || c.engine.runtime_profile@ == "latency"@,
        c.engine.shutdown_deadline_secs > 0,
        c.telemetry.log_format@ == "json"@ || c.telemetry.log_format@ == "text"@,
        trim(c.telemetry.log_level@).len() > 0,
        checks.bind == AddrCheck::Loopback,
        c.readiness.min_live_sessions > 0 ==> c.venues@.len() > 0,
        c.readiness.require_recording_healthy ==> c.recording.raw.enabled,
{
}

/// The engine, telemetry and bind rules are exactly these: a known runtime profile
/// (`portable` or `latency`), a positive shutdown deadline, a known log format (`json` or
/// `text`), a non-blank log level and a loopback bind (by the caller's parse). Any
/// configuration that meets them passes this part of validation, and none other does.
pub proof fn lemma_engine_rules_exactly(c: DaemonConfig, bind: AddrCheck)
    ensures
        engine_issue(c, bind) is None <==> {
            &&& (c.engine.runtime_profile@ == "portable"@ || c.engine.runtime_profile@ == "latency"@)
            &&& c.engine.shutdown_deadline_secs > 0
            &&& (c.telemetry.log_format@ == "json"@ || c.telemetry.log_format@ == "text"@)
            &&& trim(c.telemetry.log_level@).len() > 0
            &&& bind == AddrCheck::Loopback
        },
{
}

proof fn lemma_clean_symbols_pass(v: VenueConfig, i: nat, seen: Seq<Seq<char>>)
    requires
        forall|j: int| i <= j < v.symbols@.len() ==> trim(#[trigger] v.symbols@[j]@) == v.symbols@[j]@
            && v.symbols@[j]@.len() > 0 && !seen.contains(v.symbols@[j]@),
        forall|j: int, k: int| i <= j < k < v.symbols@.len() ==> v.symbols@[j]@ != v.symbols@[k]@,
    ensures
        symbols_issue_from(v, i, seen) is None,
    decreases v.symbols@.len() - i,
{
    if i < v.symbols@.len() {
        let sym = v.symbols@[i as int]@;
        let seen2 = seen.push(sym);
        assert forall|j: int| i + 1 <= j < v.symbols@.len() implies !seen2.contains(#[trigger] v.symbols@[j]@) by {
            if seen2.contains(v.symbols@[j]@) {
                let k = choose|k: int| 0 <= k < seen2.len() && seen2[k] == v.symbols@[j]@;
                if k < seen.len() {
                    assert(seen[k] == v.symbols@[j]@);
                }
            }
        }
        lemma_clean_symbols_pass(v, i + 1, seen2);
    }
}

proof fn lemma_known_channel_not_empty(ch: Seq<char>)
    requires
        canonical_channel_spec(ch) is Some,
    ensures
        ch.len() > 0,
{
    if ch.len() == 0 {
        assert(lower(ch).len() == 0);
        reveal_strlit("trades");
        reveal_strlit("quote");
        reveal_strlit("ticker");
        reveal_strlit("l2");
        reveal_strlit("l2_book");
        reveal_strlit("book");
        reveal_strlit("funding");
        reveal_strlit("open_interest");
        reveal_strlit("liquidations");
        reveal_strlit("mark");
        reveal_strlit("mark_price");
        reveal_strlit("index");
        reveal_strlit("candles");
    }
}

proof fn lemma_clean_channels_pass(v: VenueConfig, i: nat, seen: Seq<Seq<char>>)
    requires
        forall|j: int| i <= j < v.channels@.len() ==> trim(#[trigger] v.channels@[j]@) == v.channels@[j]@
            && canonical_channel_spec(v.channels@[j]@) is Some
            && !seen.contains(canonical_channel_spec(v.channels@[j]@)->Some_0),
        forall|j: int, k: int| i <= j < k < v.channels@.len() ==> canonical_channel_spec(v.channels@[j]@)
            != canonical_channel_spec(v.channels@[k]@),
    ensures
        channels_issue_from(v, i, seen) is None,
    decreases v.channels@.len() - i,
{
    if i < v.channels@.len() {
        let ch = v.channels@[i as int]@;
        let canon = canonical_channel_spec(ch)->Some_0;
        let seen2 = seen.push(canon);
        lemma_known_channel_not_empty(ch);
        assert forall|j: int| i + 1 <= j < v.channels@.len() implies !seen2.contains(
            canonical_channel_spec(#[trigger] v.channels@[j]@)->Some_0,
        ) by {
            let cj = canonical_channel_spec(v.channels@[j]@)->Some_0;
            if seen2.contains(cj) {
                let k = choose|k: int| 0 <= k < seen2.len() && seen2[k] == cj;
                if k < seen.len() {
                    assert(seen[k] == cj);
                }
            }
        }
        lemma_clean_channels_pass(v, i + 1, seen2);
    }
}

/// The rules on one venue are exactly these: a supported adapter (`binance`, `okx`,
/// `bybit`, `kraken`, `deribit`, `bitstamp`, `gemini`, `coinbase`, `bitfinex` or
/// `synthetic`) that resolves to a kind; the memory transport for a synthetic venue and
/// the live one for every other; at least one symbol and one channel unless synthetic;
/// no TOML credentials on a Coinbase Exchange or International venue; symbols non-blank,
/// without surrounding whitespace, each once; channels without surrounding whitespace,
/// each a known channel, no two naming the same channel. Any venue that meets them
/// passes, and none other does.
pub proof fn lemma_venue_rules_exactly(v: VenueConfig)
    ensures
        venue_body(v) is None <==> {
            &&& (v.adapter@ == "binance"@ || v.adapter@ == "okx"@ || v.adapter@ == "bybit"@ || v.adapter@ == "kraken"@
                || v.adapter@ == "deribit"@ || v.adapter@ == "bitstamp"@ || v.adapter@ == "gemini"@ || v.adapter@
                == "coinbase"@ || v.adapter@ == "bitfinex"@ || v.adapter@ == "synthetic"@)
            &&& v.kind_spec() is Ok
            &&& (v.kind_spec()->Ok_0 == VenueKind::Synthetic <==> v.transport_spec() == TransportMode::Memory)
            &&& (v.kind_spec()->Ok_0 != VenueKind::Synthetic ==> v.symbols@.len() > 0 && v.channels@.len() > 0)
            &&& ((v.kind_spec()->Ok_0 == VenueKind::CoinbaseSpot || v.kind_spec()->Ok_0 == VenueKind::CoinbaseIntl)
                ==> !v.spec_has_toml_secrets())
            &&& forall|j: int| 0 <= j < v.symbols@.len() ==> trim(#[trigger] v.symbols@[j]@) == v.symbols@[j]@
                && v.symbols@[j]@.len() > 0
            &&& forall|j: int, k: int| 0 <= j < k < v.symbols@.len() ==> v.symbols@[j]@ != v.symbols@[k]@
            &&& forall|j: int| 0 <= j < v.channels@.len() ==> trim(#[trigger] v.channels@[j]@) == v.channels@[j]@
                && canonical_channel_spec(v.channels@[j]@) is Some
            &&& forall|j: int, k: int| 0 <= j < k < v.channels@.len() ==> canonical_channel_spec(v.channels@[j]@)
                != canonical_channel_spec(v.channels@[k]@)
        },
{
    if venue_body(v) is None {
        lemma_valid_venue_is_runnable(v);
        lemma_valid_venue_lists_are_clean(v);
    }
    if known_adapter(v.adapter@) && v.kind_spec() is Ok
        && (v.kind_spec()->Ok_0 == VenueKind::Synthetic <==> v.transport_spec() == TransportMode::Memory)
        && (v.kind_spec()->Ok_0 != VenueKind::Synthetic ==> v.symbols@.len() > 0 && v.channels@.len() > 0)
        && ((v.kind_spec()->Ok_0 == VenueKind::CoinbaseSpot || v.kind_spec()->Ok_0 == VenueKind::CoinbaseIntl)
            ==> !v.spec_has_toml_secrets())
        && (forall|j: int| 0 <= j < v.symbols@.len() ==> trim(#[trigger] v.symbols@[j]@) == v.symbols@[j]@
            && v.symbols@[j]@.len() > 0)
        && (forall|j: int, k: int| 0 <= j < k < v.symbols@.len() ==> v.symbols@[j]@ != v.symbols@[k]@)
        && (forall|j: int| 0 <= j < v.channels@.len() ==> trim(#[trigger] v.channels@[j]@) == v.channels@[j]@
            && canonical_channel_spec(v.channels@[j]@) is Some)
        && (forall|j: int, k: int| 0 <= j < k < v.channels@.len() ==> canonical_channel_spec(v.channels@[j]@)
            != canonical_channel_spec(v.channels@[k]@)) {
        lemma_clean_symbols_pass(v, 0, Seq::empty());
        lemma_clean_channels_pass(v, 0, Seq::empty());
    }
}

/// The rules on one sink after its id are exactly these: a required sink has an id and
/// fails the engine when full; its type and overflow policy resolve; its capacity is
/// positive, at most 1048576, and its three queues fit with the slots already reserved
/// within 1048576; it is not the write-ahead log; file sinks have a path; UDP, Kafka and
/// NATS sinks have an address that parsed; Kafka a topic and NATS a subject. A sink that
/// meets them reserves three slots per unit of capacity, and none other passes.
pub proof fn lemma_sink_rules_exactly(s: SinkConfig, i: nat, slots: nat, addr: AddrCheck)
    ensures
        sink_body(s, i, slots, addr) is Ok <==> {
            &&& s.required ==> s.id is Some
            &&& s.kind_spec() is Ok
            &&& s.overflow_policy_spec() is Ok
            &&& s.required ==> s.overflow_policy_spec()->Ok_0 == OverflowPolicy::FailEngine
            &&& 0 < s.capacity <= 1_048_576
            &&& slots + 3 * s.capacity <= 1_048_576
            &&& s.kind_spec()->Ok_0 != SinkKind::SpillWal
            &&& file_like(s.kind_spec()->Ok_0) ==> s.file_path_spec() is Ok
            &&& (s.kind_spec()->Ok_0 == SinkKind::Udp || s.kind_spec()->Ok_0 == SinkKind::Kafka || s.kind_spec()->Ok_0
                == SinkKind::Nats) ==> s.address_spec() is Ok && !(addr is Invalid)
            &&& s.kind_spec()->Ok_0 == SinkKind::Kafka ==> s.kafka_topic_spec() is Ok
            &&& s.kind_spec()->Ok_0 == SinkKind::Nats ==> s.nats_subject_spec() is Ok
        },
        sink_body(s, i, slots, addr) matches Ok(next) ==> next == slots + 3 * s.capacity,
{
}

} // verus!
