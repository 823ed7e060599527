//! Process health: the readiness policy, the liveness of a venue's sessions, the
//! Prometheus label escaping, and the `/live` `/ready` `/metrics` listener's routing.

use vstd::prelude::*;

use crate::config::{DaemonConfig, ReadinessConfig};
use crate::view::Lifecycle;
use crate::text::{chars, concat3, decimal, decimal_string, push_char, str_eq};

verus! {

/// Whether the venue `id` is live according to `venue_live` (its first entry for `id`;
/// a venue without an entry is not live).
pub open spec fn venue_is_live(venue_live: Seq<(String, bool)>, id: Seq<char>) -> bool
    decreases venue_live.len(),
{
    if venue_live.len() == 0 {
        false
    } else if venue_live[0].0@ == id {
        venue_live[0].1
    } else {
        venue_is_live(venue_live.drop_first(), id)
    }
}

/// Whether the readiness policy is satisfied.
pub open spec fn ready_spec(
    policy: ReadinessConfig,
    config: DaemonConfig,
    process_live: bool,
    venue_live: Seq<(String, bool)>,
    live_sessions: u64,
    recording_healthy: bool,
) -> bool {
    &&& !(policy.require_running && !process_live)
    &&& !(policy.require_required_venues && exists|i: int|
        0 <= i < config.venues@.len() && #[trigger] config.venues@[i].required
            && !venue_is_live(venue_live, config.venues@[i].id@))
    &&& live_sessions >= policy.min_live_sessions
    &&& !(policy.require_recording_healthy && !recording_healthy)
}

pub(crate) fn lookup_live(venue_live: &Vec<(String, bool)>, id: &str) -> (b: bool)
    ensures
        b == venue_is_live(venue_live@, id@),
{
    let mut i: usize = 0;
    assert(venue_live@.skip(0) =~= venue_live@);
    while i < venue_live.len()
        invariant
            i <= venue_live.len(),
            venue_is_live(venue_live@, id@) == venue_is_live(venue_live@.skip(i as int), id@),
        decreases venue_live.len() - i,
    {
        assert(venue_live@.skip(i as int).drop_first() =~= venue_live@.skip(i + 1));
        if str_eq(venue_live[i].0.as_str(), id) {
            return venue_live[i].1;
        }
        i += 1;
    }
    false
}

/// Evaluates the readiness policy. `venue_live` lists each venue id with whether it is
/// live.
pub fn evaluate_readiness(
    policy: &ReadinessConfig,
    config: &DaemonConfig,
    process_live: bool,
    venue_live: &Vec<(String, bool)>,
    live_sessions: u64,
    recording_healthy: bool,
) -> (r: bool)
    ensures
        r == ready_spec(*policy, *config, process_live, venue_live@, live_sessions, recording_healthy),
{
    if policy.require_running && !process_live {
        return false;
    }
    if policy.require_required_venues {
        let mut i: usize = 0;
        while i < config.venues.len()
            invariant
                i <= config.venues.len(),
                policy.require_required_venues,
                forall|k: int| 0 <= k < i ==> !(#[trigger] config.venues@[k].required
                    && !venue_is_live(venue_live@, config.venues@[k].id@)),
            decreases config.venues.len() - i,
        {
            let v = &config.venues[i];
            if v.required && !lookup_live(venue_live, v.id.as_str()) {
                assert(config.venues@[i as int].required && !venue_is_live(venue_live@, config.venues@[i as int].id@));
                return false;
            }
            i += 1;
        }
    }
    if live_sessions < policy.min_live_sessions as u64 {
        return false;
    }
    if policy.require_recording_healthy && !recording_healthy {
        return false;
    }
    true
}

/// Readiness only improves as the process, its venues, sessions and recorder come up:
/// with every input at least as healthy, a ready process stays ready.
pub proof fn lemma_readiness_monotone(
    policy: ReadinessConfig,
    config: DaemonConfig,
    live1: bool,
    venues1: Seq<(String, bool)>,
    sessions1: u64,
    rec1: bool,
    live2: bool,
    venues2: Seq<(String, bool)>,
    sessions2: u64,
    rec2: bool,
)
    requires
        ready_spec(policy, config, live1, venues1, sessions1, rec1),
        live1 ==> live2,
        rec1 ==> rec2,
        sessions1 <= sessions2,
        forall|id: Seq<char>| venue_is_live(venues1, id) ==> venue_is_live(venues2, id),
    ensures
        ready_spec(policy, config, live2, venues2, sessions2, rec2),
{
}

/// Under a policy that requires the required venues, a required venue that is not live
/// makes the process not ready.
pub proof fn lemma_required_venue_down_blocks_readiness(
    policy: ReadinessConfig,
    config: DaemonConfig,
    process_live: bool,
    venue_live: Seq<(String, bool)>,
    live_sessions: u64,
    recording_healthy: bool,
    i: int,
)
    requires
        policy.require_required_venues,
        0 <= i < config.venues@.len(),
        config.venues@[i].required,
        !venue_is_live(venue_live, config.venues@[i].id@),
    ensures
        !ready_spec(policy, config, process_live, venue_live, live_sessions, recording_healthy),
{
}

/// A venue is live only once all of its planned sessions are live (and it has some).
pub fn all_sessions_live(flags: &Vec<bool>) -> (b: bool)
    ensures
        b == (flags@.len() > 0 && forall|i: int| 0 <= i < flags@.len() ==> #[trigger] flags@[i]),
{
    if flags.len() == 0 {
        return false;
    }
    let mut i: usize = 0;
    while i < flags.len()
        invariant
            i <= flags.len(),
            forall|k: int| 0 <= k < i ==> #[trigger] flags@[k],
        decreases flags.len() - i,
    {
        if !flags[i] {
            return false;
        }
        i += 1;
    }
    true
}

/// How one character appears inside a Prometheus label value.
pub open spec fn label_char(c: char) -> Seq<char> {
    if c == '\\' {
        seq!['\\', '\\']
    } else if c == '\n' {
        seq!['\\', 'n']
    } else if c == '"' {
        seq!['\\', '"']
    } else {
        seq![c]
    }
}

/// A Prometheus label value with backslashes, newlines and double quotes escaped.
pub open spec fn label_escape(s: Seq<char>) -> Seq<char>
    decreases s.len(),
{
    if s.len() == 0 {
        seq![]
    } else {
        label_escape(s.drop_last()) + label_char(s.last())
    }
}

/// Escapes backslashes, newlines and double quotes for a Prometheus label value.
pub fn prometheus_label_value(value: &str) -> (r: String)
    ensures
        r@ == label_escape(value@),
{
    let v = chars(value);
    let mut out = String::new();
    let mut i: usize = 0;
    while i < v.len()
        invariant
            i <= v.len(),
            v@ == value@,
            out@ == label_escape(v@.take(i as int)),
        decreases v.len() - i,
    {
        let c = v[i];
        let ghost before = out@;
        if c == '\\' {
            push_char(&mut out, '\\');
            push_char(&mut out, '\\');
        } else if c == '\n' {
            push_char(&mut out, '\\');
            push_char(&mut out, 'n');
        } else if c == '"' {
            push_char(&mut out, '\\');
            push_char(&mut out, '"');
        } else {
            push_char(&mut out, c);
        }
        assert(v@.take(i + 1).drop_last() =~= v@.take(i as int));
        assert(out@ =~= before + label_char(c));
        i += 1;
    }
    assert(v@.take(v.len() as int) =~= v@);
    out
}

/// A label value escaped this way never holds a raw newline or an unescaped quote.
pub proof fn lemma_label_escape_has_no_newline(s: Seq<char>)
    ensures
        !label_escape(s).contains('\n'),
    decreases s.len(),
{
    if s.len() > 0 {
        lemma_label_escape_has_no_newline(s.drop_last());
        let c = s.last();
        let a = label_escape(s.drop_last());
        let b = label_char(c);
        assert forall|k: int| 0 <= k < (a + b).len() implies (a + b)[k] != '\n' by {
            if k < a.len() {
                assert((a + b)[k] == a[k]);
                assert(!a.contains('\n'));
            } else {
                assert((a + b)[k] == b[k - a.len()]);
            }
        }
    }
}

/// Where the health listener routes a request path.
#[derive(Debug, Clone, Copy, PartialEq, Eq, Structural)]
pub enum HealthRoute {
    Live,
    Ready,
    Metrics,
    NotFound,
}

pub open spec fn route_spec(path: Seq<char>) -> HealthRoute {
    if path == "/live"@ {
        HealthRoute::Live
    } else if path == "/ready"@ {
        HealthRoute::Ready
    } else if path == "/metrics"@ {
        HealthRoute::Metrics
    } else {
        HealthRoute::NotFound
    }
}

pub fn route_health(path: &str) -> (r: HealthRoute)
    ensures
        r == route_spec(path@),
{
    if str_eq(path, "/live") {
        HealthRoute::Live
    } else if str_eq(path, "/ready") {
        HealthRoute::Ready
    } else if str_eq(path, "/metrics") {
        HealthRoute::Metrics
    } else {
        HealthRoute::NotFound
    }
}

/// Status, content type and body of a health reply; the `/metrics` body is the
/// exposition text the caller rendered.
pub fn health_reply(route: HealthRoute, live: bool, ready: bool, metrics: String) -> (r: (u16, &'static str, String))
    ensures
        route == HealthRoute::Live ==> (r.0 == (if live { 200u16 } else { 503u16 }) && r.1@ == "text/plain; charset=utf-8"@
            && r.2@ == (if live { "live\n"@ } else { "not live\n"@ })),
        route == HealthRoute::Ready ==> (r.0 == (if ready { 200u16 } else { 503u16 }) && r.1@ == "text/plain; charset=utf-8"@
            && r.2@ == (if ready { "ready\n"@ } else { "not ready\n"@ })),
        route == HealthRoute::Metrics ==> (r.0 == 200 && r.1@ == "text/plain; version=0.0.4; charset=utf-8"@ && r.2@ == metrics@),
        route == HealthRoute::NotFound ==> (r.0 == 404 && r.1@ == "text/plain; charset=utf-8"@ && r.2@ == "not found\n"@),
{
    match route {
        HealthRoute::Live => {
            if live {
                (200, "text/plain; charset=utf-8", String::from_str("live\n"))
            } else {
                (503, "text/plain; charset=utf-8", String::from_str("not live\n"))
            }
        },
        HealthRoute::Ready => {
            if ready {
                (200, "text/plain; charset=utf-8", String::from_str("ready\n"))
            } else {
                (503, "text/plain; charset=utf-8", String::from_str("not ready\n"))
            }
        },
        HealthRoute::Metrics => (200, "text/plain; version=0.0.4; charset=utf-8", metrics),
        HealthRoute::NotFound => (404, "text/plain; charset=utf-8", String::from_str("not found\n")),
    }
}

/// The full response text of a health reply: status line, headers and body.
pub open spec fn response_spec(status: u16, content_type: Seq<char>, body: Seq<char>, body_len: nat) -> Seq<char> {
    "HTTP/1.1 "@ + decimal(status as nat) + "\r\ncontent-type: "@ + content_type + "\r\ncontent-length: "@
        + decimal(body_len) + "\r\nconnection: close\r\n\r\n"@ + body
}

/// Renders a health reply; `body_len` is the body's length in bytes.
pub fn health_response(status: u16, content_type: &str, body: &str, body_len: usize) -> (r: String)
    ensures
        r@ == response_spec(status, content_type@, body@, body_len as nat),
{
    let st = decimal_string(status as u128);
    let mut r = concat3("HTTP/1.1 ", st.as_str(), "\r\ncontent-type: ");
    r.append(content_type);
    r.append("\r\ncontent-length: ");
    let n = decimal_string(body_len as u128);
    r.append(n.as_str());
    r.append("\r\nconnection: close\r\n\r\n");
    r.append(body);
    r
}

/// The number of venues whose sessions are all live.
pub open spec fn live_count(flags: Seq<(String, bool)>) -> nat
    decreases flags.len(),
{
    if flags.len() == 0 {
        0
    } else {
        live_count(flags.drop_last()) + if flags.last().1 { 1nat } else { 0nat }
    }
}

pub fn live_session_count(flags: &Vec<(String, bool)>) -> (n: u64)
    ensures
        n == live_count(flags@),
{
    let mut n: u64 = 0;
    let mut i: usize = 0;
    while i < flags.len()
        invariant
            i <= flags@.len(),
            n == live_count(flags@.take(i as int)),
            n <= i,
        decreases flags.len() - i,
    {
        assert(flags@.take(i + 1).drop_last() =~= flags@.take(i as int));
        if flags[i].1 {
            n = n + 1;
        }
        i += 1;
    }
    assert(flags@.take(flags@.len() as int) =~= flags@);
    n
}

/// The process is live once its supervisor runs and has marked it live.
pub open spec fn is_live_spec(process_live: bool, lifecycle: Lifecycle) -> bool {
    process_live && lifecycle == Lifecycle::Running
}

pub fn is_live(process_live: bool, lifecycle: Lifecycle) -> (b: bool)
    ensures
        b == is_live_spec(process_live, lifecycle),
{
    process_live && lifecycle == Lifecycle::Running
}

/// The live session count is the number of sessions flagged live.
pub proof fn lemma_live_count_counts_live_flags(flags: Seq<(String, bool)>)
    ensures
        live_count(flags) == flags.filter(|f: (String, bool)| f.1).len(),
    decreases flags.len(),
{
    reveal(Seq::filter);
    if flags.len() > 0 {
        lemma_live_count_counts_live_flags(flags.drop_last());
    }
}

/// Readiness holds exactly when each part of the policy that is switched on holds: the
/// process is live, every required venue is live, at least the minimum number of
/// sessions is live (the minimum itself is enough), and the recorder is healthy.
pub proof fn lemma_readiness_exactly(
    policy: ReadinessConfig,
    config: DaemonConfig,
    process_live: bool,
    venue_live: Seq<(String, bool)>,
    live_sessions: u64,
    recording_healthy: bool,
)
    ensures
        ready_spec(policy, config, process_live, venue_live, live_sessions, recording_healthy) <==> {
            &&& policy.require_running ==> process_live
            &&& policy.require_required_venues ==> forall|i: int| 0 <= i < config.venues@.len() && (
            #[trigger] config.venues@[i]).required ==> venue_is_live(venue_live, config.venues@[i].id@)
            &&& policy.min_live_sessions <= live_sessions
            &&& policy.require_recording_healthy ==> recording_healthy
        },
{
}

/// A venue's liveness is read from its first entry, and a venue without an entry is
/// not live.
pub proof fn lemma_venue_liveness_is_first_entry(venue_live: Seq<(String, bool)>, id: Seq<char>)
    ensures
        venue_is_live(venue_live, id) <==> exists|k: int| 0 <= k < venue_live.len() && (#[trigger] venue_live[k]).0@ == id
            && venue_live[k].1 && forall|j: int| 0 <= j < k ==> (#[trigger] venue_live[j]).0@ != id,
    decreases venue_live.len(),
{
    if venue_live.len() > 0 {
        let rest = venue_live.drop_first();
        lemma_venue_liveness_is_first_entry(rest, id);
        assert forall|j: int| 0 <= j < rest.len() implies rest[j] == venue_live[j + 1] by {}
        if venue_live[0].0@ != id {
            if venue_is_live(rest, id) {
                let k = choose|k: int| 0 <= k < rest.len() && (#[trigger] rest[k]).0@ == id && rest[k].1 && forall|j: int|
                    0 <= j < k ==> (#[trigger] rest[j]).0@ != id;
                assert(venue_live[k + 1] == rest[k]);
                assert forall|j: int| 0 <= j < k + 1 implies (#[trigger] venue_live[j]).0@ != id by {
                    if j > 0 {
                        assert(venue_live[j] == rest[j - 1]);
                    }
                }
            }
            if exists|k: int| 0 <= k < venue_live.len() && (#[trigger] venue_live[k]).0@ == id && venue_live[k].1
                && forall|j: int| 0 <= j < k ==> (#[trigger] venue_live[j]).0@ != id {
                let k = choose|k: int| 0 <= k < venue_live.len() && (#[trigger] venue_live[k]).0@ == id && venue_live[k].1
                    && forall|j: int| 0 <= j < k ==> (#[trigger] venue_live[j]).0@ != id;
                assert(k > 0);
                assert(rest[k - 1] == venue_live[k]);
                assert forall|j: int| 0 <= j < k - 1 implies (#[trigger] rest[j]).0@ != id by {
                    assert(rest[j] == venue_live[j + 1]);
                }
            }
        } else {
            if venue_live[0].1 {
                assert(venue_live[0].0@ == id);
            } else {
                if exists|k: int| 0 <= k < venue_live.len() && (#[trigger] venue_live[k]).0@ == id && venue_live[k].1
                    && forall|j: int| 0 <= j < k ==> (#[trigger] venue_live[j]).0@ != id {
                    let k = choose|k: int| 0 <= k < venue_live.len() && (#[trigger] venue_live[k]).0@ == id
                        && venue_live[k].1 && forall|j: int| 0 <= j < k ==> (#[trigger] venue_live[j]).0@ != id;
                    if k > 0 {
                        assert(venue_live[0].0@ != id);
                    }
                }
            }
        }
    }
}

} // verus!
