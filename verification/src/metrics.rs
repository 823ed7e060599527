//! The Prometheus exposition of `/metrics`: process gauges, venue liveness, the
//! aggregate engine series, and one family per venue counter.

use vstd::prelude::*;

use crate::health::{label_char, label_escape, lemma_label_escape_has_no_newline, prometheus_label_value};
use crate::text::{all_digits, decimal, decimal_string, has_sub, is_digit, lemma_decimal_digits, occurs_at};

verus! {

broadcast use vstd::string::group_string_axioms;

/// The process-level values `/metrics` reports.
#[derive(Debug, Clone, Copy, PartialEq, Eq, Structural)]
pub struct ProcessGauges {
    pub live: bool,
    pub ready: bool,
    pub live_sessions: u64,
    pub venues_configured: usize,
    pub http_requests: u64,
    pub started_unix_secs: u64,
    pub recording_enabled: bool,
    pub recording_healthy: bool,
    pub recording_queue_len: u64,
    pub recording_rotations: u64,
    pub recording_written: u64,
    pub recording_dropped: u64,
    pub disk_pressure: bool,
    pub shutdown_draining: bool,
}

/// The counters and gauges of one venue's engine.
#[derive(Debug, Clone, Copy, PartialEq, Eq, Structural)]
pub struct VenueCounters {
    pub frames_received: u64,
    pub frames_sent: u64,
    pub events_dispatched: u64,
    pub bytes_received: u64,
    pub bytes_sent: u64,
    pub events_normalized: u64,
    pub events_dropped: u64,
    pub queue_overflows: u64,
    pub action_buffer_overflows: u64,
    pub reconnects: u64,
    pub sequence_gaps: u64,
    pub checksum_mismatches: u64,
    pub book_invalidations: u64,
    pub book_snapshot_rejections: u64,
    pub book_resynchronizations: u64,
    pub parse_failures: u64,
    pub unknown_messages: u64,
    pub batch_queue_occupancy: u64,
    pub batch_queue_capacity: u64,
    pub system_queue_occupancy: u64,
    pub system_queue_capacity: u64,
    pub valid_books: u64,
}

/// One venue's metrics: its id, its counters, and its latency histograms already
/// rendered as exposition lines.
#[derive(Debug, Clone)]
pub struct VenueSample {
    pub id: String,
    pub counters: VenueCounters,
    pub frame_latency: String,
    pub parse_latency: String,
    pub rest_latency: String,
    pub sink_latency: String,
}

/// 1 for true, 0 for false.
pub open spec fn flag(b: bool) -> nat {
    if b {
        1
    } else {
        0
    }
}

fn flag_u64(b: bool) -> (n: u64)
    ensures
        n == flag(b),
{
    if b {
        1
    } else {
        0
    }
}

/// One metric family with a single unlabeled sample.
#[verifier::opaque]
pub open spec fn block(name: Seq<char>, help: Seq<char>, ty: Seq<char>, value: nat) -> Seq<char> {
    "# HELP "@ + name + " "@ + help + "\n# TYPE "@ + name + " "@ + ty + "\n"@ + name + " "@ + decimal(value)
        + "\n"@
}

fn push_block(out: &mut String, name: &str, help: &str, ty: &str, value: u64)
    ensures
        final(out)@ == old(out)@ + block(name@, help@, ty@, value as nat),
{
    reveal(block);
    out.append("# HELP ");
    out.append(name);
    out.append(" ");
    out.append(help);
    out.append("\n# TYPE ");
    out.append(name);
    out.append(" ");
    out.append(ty);
    out.append("\n");
    out.append(name);
    out.append(" ");
    let d = decimal_string(value as u128);
    out.append(d.as_str());
    out.append("\n");
}

/// The process-level families, in exposition order.
#[verifier::opaque]
pub open spec fn process_text(p: ProcessGauges) -> Seq<char> {
    block("marketfeed_up"@, "1 if process/supervisor is live"@, "gauge"@, flag(p.live))
        + block("marketfeed_ready"@, "1 if readiness policy is satisfied"@, "gauge"@, flag(p.ready))
        + block("marketfeed_live_sessions"@, "Current live session count"@, "gauge"@, p.live_sessions as nat)
        + block("marketfeed_venues_configured"@, "Configured venue count"@, "gauge"@, p.venues_configured as nat)
        + block("marketfeed_http_requests_total"@, "Health HTTP requests"@, "counter"@, p.http_requests as nat)
        + block("marketfeed_process_start_time_seconds"@, "Unix start time"@, "gauge"@, p.started_unix_secs as nat)
        + block("marketfeed_recording_enabled"@, "1 if raw recording is enabled"@, "gauge"@, flag(p.recording_enabled))
        + block("marketfeed_recording_healthy"@, "1 if recording path is healthy"@, "gauge"@, flag(p.recording_healthy))
        + block("marketfeed_recording_queue_len"@, "Pending recording frames"@, "gauge"@, p.recording_queue_len as nat)
        + block("marketfeed_recording_rotations_total"@, "Segment rotations"@, "counter"@, p.recording_rotations as nat)
        + block("marketfeed_recording_records_written_total"@, "Frames written"@, "counter"@, p.recording_written as nat)
        + block("marketfeed_recording_frames_dropped_total"@, "Raw frames dropped before persistence"@, "counter"@, p.recording_dropped as nat)
        + block("marketfeed_disk_pressure"@, "1 if free space below threshold"@, "gauge"@, flag(p.disk_pressure))
        + block("marketfeed_shutdown_draining"@, "1 while graceful shutdown drains"@, "gauge"@, flag(p.shutdown_draining))
}

/// The `marketfeed_venue_live` line of one venue: its escaped id, 1 when live.
pub open spec fn venue_live_line(f: (String, bool)) -> Seq<char> {
    "marketfeed_venue_live{id=\""@ + label_escape(f.0@) + "\"} "@ + decimal(flag(f.1)) + "\n"@
}

/// `marketfeed_venue_live` for the first `n` venues, 1 when live.
pub open spec fn live_lines(flags: Seq<(String, bool)>, n: nat) -> Seq<char>
    decreases n,
{
    if n == 0 || n > flags.len() {
        seq![]
    } else {
        live_lines(flags, (n - 1) as nat) + venue_live_line(flags[n - 1])
    }
}

/// The number of per-venue families.
pub open spec fn family_count() -> nat {
    26
}

/// The name suffix, help text and type of per-venue family `k`.
#[verifier::opaque]
pub open spec fn family_info_spec(k: nat) -> (Seq<char>, Seq<char>, Seq<char>) {
    if k == 0 {
        ("frames_received_total"@, "Per-venue inbound frames"@, "counter"@)
    } else if k == 1 {
        ("frames_sent_total"@, "Per-venue outbound frames"@, "counter"@)
    } else if k == 2 {
        ("events_dispatched_total"@, "Per-venue dispatched events"@, "counter"@)
    } else if k == 3 {
        ("bytes_received_total"@, "Per-venue inbound payload bytes"@, "counter"@)
    } else if k == 4 {
        ("bytes_sent_total"@, "Per-venue outbound payload bytes"@, "counter"@)
    } else if k == 5 {
        ("events_normalized_total"@, "Per-venue normalized market events"@, "counter"@)
    } else if k == 6 {
        ("events_dropped_total"@, "Per-venue dropped events"@, "counter"@)
    } else if k == 7 {
        ("queue_overflows_total"@, "Per-venue queue overflow incidents"@, "counter"@)
    } else if k == 8 {
        ("action_buffer_overflows_total"@, "Per-venue ActionBuffer overflow incidents"@, "counter"@)
    } else if k == 9 {
        ("reconnects_total"@, "Per-venue reconnects"@, "counter"@)
    } else if k == 10 {
        ("sequence_gaps_total"@, "Per-venue sequence gaps"@, "counter"@)
    } else if k == 11 {
        ("checksum_mismatches_total"@, "Per-venue checksum mismatches"@, "counter"@)
    } else if k == 12 {
        ("book_invalidations_total"@, "Per-venue book invalidations"@, "counter"@)
    } else if k == 13 {
        ("book_snapshot_rejections_total"@, "Per-venue rejected replacement book snapshots"@, "counter"@)
    } else if k == 14 {
        ("book_resynchronizations_total"@, "Per-venue book resynchronizations"@, "counter"@)
    } else if k == 15 {
        ("parse_failures_total"@, "Per-venue parse failures"@, "counter"@)
    } else if k == 16 {
        ("unknown_messages_total"@, "Per-venue unknown message events"@, "counter"@)
    } else if k == 17 {
        ("queue_occupancy"@, "Per-venue dispatch queue occupancy"@, "gauge"@)
    } else if k == 18 {
        ("batch_queue_capacity"@, "Per-venue dispatch batch queue capacity"@, "gauge"@)
    } else if k == 19 {
        ("system_queue_occupancy"@, "Per-venue dispatch system queue occupancy"@, "gauge"@)
    } else if k == 20 {
        ("system_queue_capacity"@, "Per-venue dispatch system queue capacity"@, "gauge"@)
    } else if k == 21 {
        ("valid_books"@, "Per-venue valid books"@, "gauge"@)
    } else if k == 22 {
        ("frame_to_event_latency_seconds"@, "Per-venue frame ingress to action-apply latency"@, "histogram"@)
    } else if k == 23 {
        ("parse_duration_seconds"@, "Per-venue SessionMachine parse and normalization latency"@, "histogram"@)
    } else if k == 24 {
        ("rest_latency_seconds"@, "Per-venue HTTP request round-trip latency"@, "histogram"@)
    } else {
        ("sink_write_latency_seconds"@, "Per-venue configured sink forward-drain latency"@, "histogram"@)
    }
}

fn family_info(k: usize) -> (r: (&'static str, &'static str, &'static str))
    requires
        k < 26,
    ensures
        (r.0@, r.1@, r.2@) == family_info_spec(k as nat),
{
    reveal(family_info_spec);
    if k == 0 {
        ("frames_received_total", "Per-venue inbound frames", "counter")
    } else if k == 1 {
        ("frames_sent_total", "Per-venue outbound frames", "counter")
    } else if k == 2 {
        ("events_dispatched_total", "Per-venue dispatched events", "counter")
    } else if k == 3 {
        ("bytes_received_total", "Per-venue inbound payload bytes", "counter")
    } else if k == 4 {
        ("bytes_sent_total", "Per-venue outbound payload bytes", "counter")
    } else if k == 5 {
        ("events_normalized_total", "Per-venue normalized market events", "counter")
    } else if k == 6 {
        ("events_dropped_total", "Per-venue dropped events", "counter")
    } else if k == 7 {
        ("queue_overflows_total", "Per-venue queue overflow incidents", "counter")
    } else if k == 8 {
        ("action_buffer_overflows_total", "Per-venue ActionBuffer overflow incidents", "counter")
    } else if k == 9 {
        ("reconnects_total", "Per-venue reconnects", "counter")
    } else if k == 10 {
        ("sequence_gaps_total", "Per-venue sequence gaps", "counter")
    } else if k == 11 {
        ("checksum_mismatches_total", "Per-venue checksum mismatches", "counter")
    } else if k == 12 {
        ("book_invalidations_total", "Per-venue book invalidations", "counter")
    } else if k == 13 {
        ("book_snapshot_rejections_total", "Per-venue rejected replacement book snapshots", "counter")
    } else if k == 14 {
        ("book_resynchronizations_total", "Per-venue book resynchronizations", "counter")
    } else if k == 15 {
        ("parse_failures_total", "Per-venue parse failures", "counter")
    } else if k == 16 {
        ("unknown_messages_total", "Per-venue unknown message events", "counter")
    } else if k == 17 {
        ("queue_occupancy", "Per-venue dispatch queue occupancy", "gauge")
    } else if k == 18 {
        ("batch_queue_capacity", "Per-venue dispatch batch queue capacity", "gauge")
    } else if k == 19 {
        ("system_queue_occupancy", "Per-venue dispatch system queue occupancy", "gauge")
    } else if k == 20 {
        ("system_queue_capacity", "Per-venue dispatch system queue capacity", "gauge")
    } else if k == 21 {
        ("valid_books", "Per-venue valid books", "gauge")
    } else if k == 22 {
        ("frame_to_event_latency_seconds", "Per-venue frame ingress to action-apply latency", "histogram")
    } else if k == 23 {
        ("parse_duration_seconds", "Per-venue SessionMachine parse and normalization latency", "histogram")
    } else if k == 24 {
        ("rest_latency_seconds", "Per-venue HTTP request round-trip latency", "histogram")
    } else {
        ("sink_write_latency_seconds", "Per-venue configured sink forward-drain latency", "histogram")
    }
}

/// Counter `k` of a venue, in family order.
pub open spec fn counter(c: VenueCounters, k: nat) -> u64 {
    if k == 0 {
        c.frames_received
    } else if k == 1 {
        c.frames_sent
    } else if k == 2 {
        c.events_dispatched
    } else if k == 3 {
        c.bytes_received
    } else if k == 4 {
        c.bytes_sent
    } else if k == 5 {
        c.events_normalized
    } else if k == 6 {
        c.events_dropped
    } else if k == 7 {
        c.queue_overflows
    } else if k == 8 {
        c.action_buffer_overflows
    } else if k == 9 {
        c.reconnects
    } else if k == 10 {
        c.sequence_gaps
    } else if k == 11 {
        c.checksum_mismatches
    } else if k == 12 {
        c.book_invalidations
    } else if k == 13 {
        c.book_snapshot_rejections
    } else if k == 14 {
        c.book_resynchronizations
    } else if k == 15 {
        c.parse_failures
    } else if k == 16 {
        c.unknown_messages
    } else if k == 17 {
        c.batch_queue_occupancy
    } else if k == 18 {
        c.batch_queue_capacity
    } else if k == 19 {
        c.system_queue_occupancy
    } else if k == 20 {
        c.system_queue_capacity
    } else {
        c.valid_books
    }
}

fn counter_at(c: &VenueCounters, k: usize) -> (v: u64)
    requires
        k < 22,
    ensures
        v == counter(*c, k as nat),
{
    if k == 0 {
        c.frames_received
    } else if k == 1 {
        c.frames_sent
    } else if k == 2 {
        c.events_dispatched
    } else if k == 3 {
        c.bytes_received
    } else if k == 4 {
        c.bytes_sent
    } else if k == 5 {
        c.events_normalized
    } else if k == 6 {
        c.events_dropped
    } else if k == 7 {
        c.queue_overflows
    } else if k == 8 {
        c.action_buffer_overflows
    } else if k == 9 {
        c.reconnects
    } else if k == 10 {
        c.sequence_gaps
    } else if k == 11 {
        c.checksum_mismatches
    } else if k == 12 {
        c.book_invalidations
    } else if k == 13 {
        c.book_snapshot_rejections
    } else if k == 14 {
        c.book_resynchronizations
    } else if k == 15 {
        c.parse_failures
    } else if k == 16 {
        c.unknown_messages
    } else if k == 17 {
        c.batch_queue_occupancy
    } else if k == 18 {
        c.batch_queue_capacity
    } else if k == 19 {
        c.system_queue_occupancy
    } else if k == 20 {
        c.system_queue_capacity
    } else {
        c.valid_books
    }
}

/// Histogram `j` of a venue, as rendered lines.
pub open spec fn histogram(s: VenueSample, j: nat) -> Seq<char> {
    if j == 0 {
        s.frame_latency@
    } else if j == 1 {
        s.parse_latency@
    } else if j == 2 {
        s.rest_latency@
    } else {
        s.sink_latency@
    }
}

fn histogram_at(s: &VenueSample, j: usize) -> (r: &str)
    requires
        j < 4,
    ensures
        r@ == histogram(*s, j as nat),
{
    if j == 0 {
        s.frame_latency.as_str()
    } else if j == 1 {
        s.parse_latency.as_str()
    } else if j == 2 {
        s.rest_latency.as_str()
    } else {
        s.sink_latency.as_str()
    }
}

/// The sample line of one venue in per-venue family `k`.
pub open spec fn family_line(s: VenueSample, k: nat) -> Seq<char> {
    if k < 22 {
        "marketfeed_venue_"@ + family_info_spec(k).0 + "{id=\""@ + label_escape(s.id@) + "\"} "@ + decimal(
            counter(s.counters, k) as nat,
        ) + "\n"@
    } else {
        histogram(s, (k - 22) as nat)
    }
}

/// The sample lines of the first `n` venues in per-venue family `k`.
pub open spec fn family_body(samples: Seq<VenueSample>, k: nat, n: nat) -> Seq<char>
    decreases n,
{
    if n == 0 || n > samples.len() {
        seq![]
    } else {
        family_body(samples, k, (n - 1) as nat) + family_line(samples[n - 1], k)
    }
}

/// Per-venue family `k`: its help and type lines, then every venue's samples.
pub open spec fn family_text(samples: Seq<VenueSample>, k: nat) -> Seq<char> {
    let (suffix, help, ty) = family_info_spec(k);
    "# HELP marketfeed_venue_"@ + suffix + " "@ + help + "\n# TYPE marketfeed_venue_"@ + suffix + " "@ + ty
        + "\n"@ + family_body(samples, k, samples.len())
}

/// The first `m` per-venue families.
pub open spec fn families_text(samples: Seq<VenueSample>, m: nat) -> Seq<char>
    decreases m,
{
    if m == 0 {
        seq![]
    } else {
        families_text(samples, (m - 1) as nat) + family_text(samples, (m - 1) as nat)
    }
}

/// The whole exposition: process families, venue liveness, the aggregate engine series
/// (rendered by the caller), then the per-venue families.
pub open spec fn exposition(p: ProcessGauges, flags: Seq<(String, bool)>, aggregate: Seq<char>, samples: Seq<VenueSample>) -> Seq<char> {
    process_text(p) + live_lines(flags, flags.len()) + aggregate + families_text(samples, family_count())
}

fn process_section(p: &ProcessGauges) -> (out: String)
    ensures
        out@ == process_text(*p),
{
    reveal(process_text);
    let mut out = String::new();
    push_block(&mut out, "marketfeed_up", "1 if process/supervisor is live", "gauge", flag_u64(p.live));
    assert(out@ =~= block("marketfeed_up"@, "1 if process/supervisor is live"@, "gauge"@, flag(p.live)));
    push_block(&mut out, "marketfeed_ready", "1 if readiness policy is satisfied", "gauge", flag_u64(p.ready));
    push_block(&mut out, "marketfeed_live_sessions", "Current live session count", "gauge", p.live_sessions);
    push_block(&mut out, "marketfeed_venues_configured", "Configured venue count", "gauge", p.venues_configured as u64);
    push_block(&mut out, "marketfeed_http_requests_total", "Health HTTP requests", "counter", p.http_requests);
    push_block(&mut out, "marketfeed_process_start_time_seconds", "Unix start time", "gauge", p.started_unix_secs);
    push_block(&mut out, "marketfeed_recording_enabled", "1 if raw recording is enabled", "gauge", flag_u64(p.recording_enabled));
    push_block(&mut out, "marketfeed_recording_healthy", "1 if recording path is healthy", "gauge", flag_u64(p.recording_healthy));
    push_block(&mut out, "marketfeed_recording_queue_len", "Pending recording frames", "gauge", p.recording_queue_len);
    push_block(&mut out, "marketfeed_recording_rotations_total", "Segment rotations", "counter", p.recording_rotations);
    push_block(&mut out, "marketfeed_recording_records_written_total", "Frames written", "counter", p.recording_written);
    push_block(&mut out, "marketfeed_recording_frames_dropped_total", "Raw frames dropped before persistence", "counter", p.recording_dropped);
    push_block(&mut out, "marketfeed_disk_pressure", "1 if free space below threshold", "gauge", flag_u64(p.disk_pressure));
    push_block(&mut out, "marketfeed_shutdown_draining", "1 while graceful shutdown drains", "gauge", flag_u64(p.shutdown_draining));
    out
}

fn family_section(samples: &Vec<VenueSample>, k: usize) -> (out: String)
    requires
        k < 26,
    ensures
        out@ == family_text(samples@, k as nat),
{
    let (suffix, help, ty) = family_info(k);
    let mut out = String::from_str("# HELP marketfeed_venue_");
    out.append(suffix);
    out.append(" ");
    out.append(help);
    out.append("\n# TYPE marketfeed_venue_");
    out.append(suffix);
    out.append(" ");
    out.append(ty);
    out.append("\n");
    let ghost fam_head = out@;
    assert(fam_head + family_body(samples@, k as nat, 0) =~= fam_head);
    assert(fam_head =~= "# HELP marketfeed_venue_"@ + suffix@ + " "@ + help@ + "\n# TYPE marketfeed_venue_"@ + suffix@ + " "@ + ty@ + "\n"@);
    let mut v: usize = 0;
    while v < samples.len()
        invariant
            k < 26,
            v <= samples@.len(),
            suffix@ == family_info_spec(k as nat).0,
            out@ == fam_head + family_body(samples@, k as nat, v as nat),
        decreases samples.len() - v,
    {
        let s = &samples[v];
        let line = venue_line(s, k, suffix);
        out.append(line.as_str());
        proof {
            vstd::seq_lib::lemma_concat_associative(fam_head, family_body(samples@, k as nat, v as nat), family_line(samples@[v as int], k as nat));
        }
        v += 1;
    }
    out
}

fn venue_line(s: &VenueSample, k: usize, suffix: &str) -> (out: String)
    requires
        k < 26,
        suffix@ == family_info_spec(k as nat).0,
    ensures
        out@ == family_line(*s, k as nat),
{
    if k < 22 {
        let mut out = String::from_str("marketfeed_venue_");
        out.append(suffix);
        out.append("{id=\"");
        let id = prometheus_label_value(s.id.as_str());
        out.append(id.as_str());
        out.append("\"} ");
        let d = decimal_string(counter_at(&s.counters, k) as u128);
        out.append(d.as_str());
        out.append("\n");
        out
    } else {
        String::from_str(histogram_at(s, k - 22))
    }
}

/// Renders the `/metrics` exposition. `flags` holds each venue's liveness, `aggregate`
/// the engine series summed over venues, and `samples` each venue's metrics.
pub fn prometheus_text(p: &ProcessGauges, flags: &Vec<(String, bool)>, aggregate: &str, samples: &Vec<VenueSample>) -> (out: String)
    ensures
        out@ == exposition(*p, flags@, aggregate@, samples@),
{
    let mut out = process_section(p);
    let mut i: usize = 0;
    while i < flags.len()
        invariant
            i <= flags@.len(),
            out@ == process_text(*p) + live_lines(flags@, i as nat),
        decreases flags.len() - i,
    {
        out.append("marketfeed_venue_live{id=\"");
        let id = prometheus_label_value(flags[i].0.as_str());
        out.append(id.as_str());
        out.append("\"} ");
        let d = decimal_string(flag_u64(flags[i].1) as u128);
        out.append(d.as_str());
        out.append("\n");
        i += 1;
        assert(out@ =~= process_text(*p) + live_lines(flags@, i as nat));
    }
    out.append(aggregate);
    let ghost head = out@;
    assert(head + families_text(samples@, 0) =~= head);
    let mut k: usize = 0;
    while k < 26
        invariant
            k <= 26,
            out@ == head + families_text(samples@, k as nat),
        decreases 26 - k,
    {
        let section = family_section(samples, k);
        out.append(section.as_str());
        proof {
            vstd::seq_lib::lemma_concat_associative(head, families_text(samples@, k as nat), family_text(samples@, k as nat));
        }
        k += 1;
    }
    out
}

// ---------------------------------------------------------------------------
// The aggregate over venues.

/// `a + b` modulo 2^64, as the engine's atomic counters add.
pub open spec fn wrap_add(a: u64, b: u64) -> u64 {
    if a + b > u64::MAX {
        (a + b - 0x1_0000_0000_0000_0000) as u64
    } else {
        (a + b) as u64
    }
}

fn wrapping_sum(a: u64, b: u64) -> (r: u64)
    ensures
        r == wrap_add(a, b),
{
    if a > u64::MAX - b {
        a - (u64::MAX - b) - 1
    } else {
        a + b
    }
}

pub open spec fn max_u64(a: u64, b: u64) -> u64 {
    if b > a {
        b
    } else {
        a
    }
}

/// Folds one more venue into the aggregate: occupancies keep the largest value, every
/// other counter adds up (wrapping).
pub open spec fn combine(a: VenueCounters, b: VenueCounters) -> VenueCounters {
    VenueCounters {
        frames_received: wrap_add(a.frames_received, b.frames_received),
        frames_sent: wrap_add(a.frames_sent, b.frames_sent),
        events_dispatched: wrap_add(a.events_dispatched, b.events_dispatched),
        bytes_received: wrap_add(a.bytes_received, b.bytes_received),
        bytes_sent: wrap_add(a.bytes_sent, b.bytes_sent),
        events_normalized: wrap_add(a.events_normalized, b.events_normalized),
        events_dropped: wrap_add(a.events_dropped, b.events_dropped),
        queue_overflows: wrap_add(a.queue_overflows, b.queue_overflows),
        action_buffer_overflows: wrap_add(a.action_buffer_overflows, b.action_buffer_overflows),
        reconnects: wrap_add(a.reconnects, b.reconnects),
        sequence_gaps: wrap_add(a.sequence_gaps, b.sequence_gaps),
        checksum_mismatches: wrap_add(a.checksum_mismatches, b.checksum_mismatches),
        book_invalidations: wrap_add(a.book_invalidations, b.book_invalidations),
        book_snapshot_rejections: wrap_add(a.book_snapshot_rejections, b.book_snapshot_rejections),
        book_resynchronizations: wrap_add(a.book_resynchronizations, b.book_resynchronizations),
        parse_failures: wrap_add(a.parse_failures, b.parse_failures),
        unknown_messages: wrap_add(a.unknown_messages, b.unknown_messages),
        batch_queue_occupancy: max_u64(a.batch_queue_occupancy, b.batch_queue_occupancy),
        batch_queue_capacity: wrap_add(a.batch_queue_capacity, b.batch_queue_capacity),
        system_queue_occupancy: max_u64(a.system_queue_occupancy, b.system_queue_occupancy),
        system_queue_capacity: wrap_add(a.system_queue_capacity, b.system_queue_capacity),
        valid_books: wrap_add(a.valid_books, b.valid_books),
    }
}

pub open spec fn zero_counters() -> VenueCounters {
    VenueCounters {
        frames_received: 0,
        frames_sent: 0,
        events_dispatched: 0,
        bytes_received: 0,
        bytes_sent: 0,
        events_normalized: 0,
        events_dropped: 0,
        queue_overflows: 0,
        action_buffer_overflows: 0,
        reconnects: 0,
        sequence_gaps: 0,
        checksum_mismatches: 0,
        book_invalidations: 0,
        book_snapshot_rejections: 0,
        book_resynchronizations: 0,
        parse_failures: 0,
        unknown_messages: 0,
        batch_queue_occupancy: 0,
        batch_queue_capacity: 0,
        system_queue_occupancy: 0,
        system_queue_capacity: 0,
        valid_books: 0,
    }
}

/// The aggregate of the first `n` venues.
pub open spec fn aggregate_spec(samples: Seq<VenueSample>, n: nat) -> VenueCounters
    decreases n,
{
    if n == 0 || n > samples.len() {
        zero_counters()
    } else {
        combine(aggregate_spec(samples, (n - 1) as nat), samples[n - 1].counters)
    }
}

fn combine_exec(a: &VenueCounters, b: &VenueCounters) -> (r: VenueCounters)
    ensures
        r == combine(*a, *b),
{
    VenueCounters {
        frames_received: wrapping_sum(a.frames_received, b.frames_received),
        frames_sent: wrapping_sum(a.frames_sent, b.frames_sent),
        events_dispatched: wrapping_sum(a.events_dispatched, b.events_dispatched),
        bytes_received: wrapping_sum(a.bytes_received, b.bytes_received),
        bytes_sent: wrapping_sum(a.bytes_sent, b.bytes_sent),
        events_normalized: wrapping_sum(a.events_normalized, b.events_normalized),
        events_dropped: wrapping_sum(a.events_dropped, b.events_dropped),
        queue_overflows: wrapping_sum(a.queue_overflows, b.queue_overflows),
        action_buffer_overflows: wrapping_sum(a.action_buffer_overflows, b.action_buffer_overflows),
        reconnects: wrapping_sum(a.reconnects, b.reconnects),
        sequence_gaps: wrapping_sum(a.sequence_gaps, b.sequence_gaps),
        checksum_mismatches: wrapping_sum(a.checksum_mismatches, b.checksum_mismatches),
        book_invalidations: wrapping_sum(a.book_invalidations, b.book_invalidations),
        book_snapshot_rejections: wrapping_sum(a.book_snapshot_rejections, b.book_snapshot_rejections),
        book_resynchronizations: wrapping_sum(a.book_resynchronizations, b.book_resynchronizations),
        parse_failures: wrapping_sum(a.parse_failures, b.parse_failures),
        unknown_messages: wrapping_sum(a.unknown_messages, b.unknown_messages),
        batch_queue_occupancy: if b.batch_queue_occupancy > a.batch_queue_occupancy { b.batch_queue_occupancy } else { a.batch_queue_occupancy },
        batch_queue_capacity: wrapping_sum(a.batch_queue_capacity, b.batch_queue_capacity),
        system_queue_occupancy: if b.system_queue_occupancy > a.system_queue_occupancy { b.system_queue_occupancy } else { a.system_queue_occupancy },
        system_queue_capacity: wrapping_sum(a.system_queue_capacity, b.system_queue_capacity),
        valid_books: wrapping_sum(a.valid_books, b.valid_books),
    }
}

/// The engine counters summed over every venue (occupancies: the largest).
pub fn aggregate_counters(samples: &Vec<VenueSample>) -> (r: VenueCounters)
    ensures
        r == aggregate_spec(samples@, samples@.len()),
{
    let mut acc = VenueCounters {
        frames_received: 0,
        frames_sent: 0,
        events_dispatched: 0,
        bytes_received: 0,
        bytes_sent: 0,
        events_normalized: 0,
        events_dropped: 0,
        queue_overflows: 0,
        action_buffer_overflows: 0,
        reconnects: 0,
        sequence_gaps: 0,
        checksum_mismatches: 0,
        book_invalidations: 0,
        book_snapshot_rejections: 0,
        book_resynchronizations: 0,
        parse_failures: 0,
        unknown_messages: 0,
        batch_queue_occupancy: 0,
        batch_queue_capacity: 0,
        system_queue_occupancy: 0,
        system_queue_capacity: 0,
        valid_books: 0,
    };
    let mut i: usize = 0;
    while i < samples.len()
        invariant
            i <= samples@.len(),
            acc == aggregate_spec(samples@, i as nat),
        decreases samples.len() - i,
    {
        acc = combine_exec(&acc, &samples[i].counters);
        i += 1;
    }
    acc
}

/// Counter `k` summed over the first `n` venues, as a plain number.
pub open spec fn column_sum(samples: Seq<VenueSample>, k: nat, n: nat) -> int
    decreases n,
{
    if n == 0 || n > samples.len() {
        0
    } else {
        column_sum(samples, k, (n - 1) as nat) + counter(samples[n - 1].counters, k)
    }
}

/// The two queue occupancies, which are gauges rather than counters.
pub open spec fn is_occupancy(k: nat) -> bool {
    k == 17 || k == 19
}

proof fn lemma_combine_counter(a: VenueCounters, c: VenueCounters, k: nat)
    requires
        k < 22,
    ensures
        is_occupancy(k) ==> counter(combine(a, c), k) == max_u64(counter(a, k), counter(c, k)),
        !is_occupancy(k) ==> counter(combine(a, c), k) == wrap_add(counter(a, k), counter(c, k)),
{
}

/// Each engine counter of the aggregate is the sum of that counter over every venue,
/// modulo 2^64; each queue occupancy is the largest venue's occupancy (0 with no venue).
pub proof fn lemma_aggregate_sums_each_counter(samples: Seq<VenueSample>, n: nat, k: nat)
    requires
        n <= samples.len(),
        k < 22,
    ensures
        !is_occupancy(k) ==> counter(aggregate_spec(samples, n), k) as int == column_sum(samples, k, n) % 0x1_0000_0000_0000_0000,
        is_occupancy(k) ==> forall|j: int| 0 <= j < n ==> counter(#[trigger] samples[j].counters, k) <= counter(aggregate_spec(samples, n), k),
        is_occupancy(k) && n == 0 ==> counter(aggregate_spec(samples, n), k) == 0,
        is_occupancy(k) && n > 0 ==> exists|j: int| 0 <= j < n && counter(#[trigger] samples[j].counters, k) == counter(aggregate_spec(samples, n), k),
    decreases n,
{
    if n > 0 {
        let m = (n - 1) as nat;
        lemma_aggregate_sums_each_counter(samples, m, k);
        let a = aggregate_spec(samples, m);
        let c = samples[m as int].counters;
        lemma_combine_counter(a, c, k);
        assert(aggregate_spec(samples, n) == combine(a, c));
        if !is_occupancy(k) {
            let x = counter(a, k) as int;
            let y = counter(c, k) as int;
            let big: int = 0x1_0000_0000_0000_0000;
            let prev = column_sum(samples, k, m);
            assert(column_sum(samples, k, n) == prev + y);
            vstd::arithmetic::div_mod::lemma_add_mod_noop(prev, y, big);
            vstd::arithmetic::div_mod::lemma_small_mod(y as nat, big as nat);
            vstd::arithmetic::div_mod::lemma_add_mod_noop(x, y, big);
            vstd::arithmetic::div_mod::lemma_small_mod(x as nat, big as nat);
            if x + y < big {
                vstd::arithmetic::div_mod::lemma_small_mod((x + y) as nat, big as nat);
            } else {
                vstd::arithmetic::div_mod::lemma_small_mod((x + y - big) as nat, big as nat);
                vstd::arithmetic::div_mod::lemma_mod_sub_multiples_vanish(x + y, big);
            }
        } else {
            if n == 1 {
                assert(counter(a, k) == 0);
            }
            assert forall|j: int| 0 <= j < n implies counter(#[trigger] samples[j].counters, k) <= counter(aggregate_spec(samples, n), k) by {
                if j < m {
                }
            }
            if counter(c, k) > counter(a, k) {
                assert(counter(samples[m as int].counters, k) == counter(aggregate_spec(samples, n), k));
            } else if m > 0 {
                let w = choose|j: int| 0 <= j < m && counter(#[trigger] samples[j].counters, k) == counter(a, k);
                assert(counter(samples[w].counters, k) == counter(aggregate_spec(samples, n), k));
            } else {
                assert(counter(samples[0].counters, k) == counter(aggregate_spec(samples, n), k));
            }
        }
    }
}

// ---------------------------------------------------------------------------
// What the exposition reports.

/// The number of line breaks in `s`.
pub open spec fn newline_count(s: Seq<char>) -> nat
    decreases s.len(),
{
    if s.len() == 0 {
        0
    } else {
        newline_count(s.drop_last()) + (if s.last() == '\n' { 1nat } else { 0nat })
    }
}

proof fn lemma_newline_count_add(a: Seq<char>, b: Seq<char>)
    ensures
        newline_count(a + b) == newline_count(a) + newline_count(b),
    decreases b.len(),
{
    if b.len() == 0 {
        assert(a + b =~= a);
    } else {
        assert((a + b).drop_last() =~= a + b.drop_last());
        lemma_newline_count_add(a, b.drop_last());
    }
}

proof fn lemma_newline_free(s: Seq<char>)
    requires
        !s.contains('\n'),
    ensures
        newline_count(s) == 0,
    decreases s.len(),
{
    if s.len() > 0 {
        assert(s.last() == s[s.len() - 1]);
        assert(!s.drop_last().contains('\n')) by {
            if s.drop_last().contains('\n') {
                let k = choose|k: int| 0 <= k < s.drop_last().len() && s.drop_last()[k] == '\n';
                assert(s[k] == '\n');
            }
        }
        lemma_newline_free(s.drop_last());
    }
}

proof fn lemma_venue_line_is_one_line(f: (String, bool))
    ensures
        newline_count(venue_live_line(f)) == 1,
{
    reveal_strlit("marketfeed_venue_live{id=\"");
    reveal_strlit("\"} ");
    reveal_strlit("\n");
    let head = "marketfeed_venue_live{id=\""@;
    let esc = label_escape(f.0@);
    let mid = "\"} "@;
    let d = decimal(flag(f.1));
    lemma_decimal_digits(flag(f.1));
    lemma_label_escape_has_no_newline(f.0@);
    assert forall|k: int| 0 <= k < d.len() implies d[k] != '\n' by {
        assert(is_digit(d[k]));
    }
    lemma_newline_free(head);
    lemma_newline_free(mid);
    lemma_newline_free(d);
    lemma_newline_free(esc);
    assert(newline_count("\n"@) == 1) by {
        assert("\n"@.drop_last() =~= Seq::<char>::empty());
        assert(newline_count(Seq::<char>::empty()) == 0);
        assert("\n"@.last() == '\n');
    }
    lemma_newline_count_add(head, esc);
    lemma_newline_count_add(head + esc, mid);
    lemma_newline_count_add(head + esc + mid, d);
    lemma_newline_count_add(head + esc + mid + d, "\n"@);
}

proof fn lemma_has_sub_within(x: Seq<char>, y: Seq<char>, off: int, needle: Seq<char>)
    requires
        has_sub(x, needle),
        0 <= off,
        off + x.len() <= y.len(),
        y.subrange(off, off + x.len()) == x,
    ensures
        has_sub(y, needle),
{
    let k = choose|k: int| occurs_at(x, needle, k);
    assert(y.subrange(off + k, off + k + needle.len()) =~= x.subrange(k, k + needle.len()));
    assert(occurs_at(y, needle, off + k));
}

proof fn lemma_has_self(x: Seq<char>)
    ensures
        has_sub(x, x),
{
    assert(x.subrange(0, x.len() as int) =~= x);
    assert(occurs_at(x, x, 0));
}

proof fn lemma_live_lines_hold(flags: Seq<(String, bool)>, n: nat, i: int)
    requires
        n <= flags.len(),
        0 <= i < n,
    ensures
        has_sub(live_lines(flags, n), venue_live_line(flags[i])),
    decreases n,
{
    let prev = live_lines(flags, (n - 1) as nat);
    let line = venue_live_line(flags[n - 1]);
    let all = prev + line;
    assert(live_lines(flags, n) == all);
    if i < n - 1 {
        lemma_live_lines_hold(flags, (n - 1) as nat, i);
        assert(all.subrange(0, prev.len() as int) =~= prev);
        lemma_has_sub_within(prev, all, 0, venue_live_line(flags[i]));
    } else {
        assert(all.subrange(prev.len() as int, all.len() as int) =~= line);
        assert(occurs_at(all, line, prev.len() as int));
    }
}

proof fn lemma_live_lines_count(flags: Seq<(String, bool)>, n: nat)
    requires
        n <= flags.len(),
    ensures
        newline_count(live_lines(flags, n)) == n,
    decreases n,
{
    if n > 0 {
        lemma_live_lines_count(flags, (n - 1) as nat);
        lemma_venue_line_is_one_line(flags[n - 1]);
        lemma_newline_count_add(live_lines(flags, (n - 1) as nat), venue_live_line(flags[n - 1]));
    } else {
        assert(newline_count(Seq::<char>::empty()) == 0);
    }
}

/// A family's sample line: its name, a space, the value and a line break.
pub open spec fn sample_line(name: Seq<char>, value: nat) -> Seq<char> {
    name + " "@ + decimal(value) + "\n"@
}

proof fn lemma_block_has_sample(name: Seq<char>, help: Seq<char>, ty: Seq<char>, value: nat)
    ensures
        has_sub(block(name, help, ty, value), sample_line(name, value)),
{
    reveal(block);
    let l = sample_line(name, value);
    let head = "# HELP "@ + name + " "@ + help + "\n# TYPE "@ + name + " "@ + ty + "\n"@;
    let b = head + l;
    assert(block(name, help, ty, value) =~= b);
    assert(b.subrange(head.len() as int, (head.len() + l.len()) as int) =~= l);
    assert(occurs_at(b, l, head.len() as int));
}

/// The exposition reports whether the process is live and ready and how many venues
/// are configured, each as a sample line; and its venue-liveness section holds exactly
/// one line per venue, in venue order, 1 for a live venue and 0 otherwise.
#[verifier::rlimit(60)]
pub proof fn lemma_exposition_reports_liveness(p: ProcessGauges, flags: Seq<(String, bool)>, aggregate: Seq<char>, samples: Seq<VenueSample>)
    ensures
        has_sub(exposition(p, flags, aggregate, samples), sample_line("marketfeed_up"@, flag(p.live))),
        has_sub(exposition(p, flags, aggregate, samples), sample_line("marketfeed_ready"@, flag(p.ready))),
        has_sub(exposition(p, flags, aggregate, samples), sample_line("marketfeed_venues_configured"@, p.venues_configured as nat)),
        forall|i: int| 0 <= i < flags.len() ==> has_sub(exposition(p, flags, aggregate, samples), venue_live_line(#[trigger] flags[i])),
        newline_count(live_lines(flags, flags.len())) == flags.len(),
{
    let e = exposition(p, flags, aggregate, samples);
    let pt = process_text(p);
    let live = live_lines(flags, flags.len());
    let rest = aggregate + families_text(samples, family_count());
    assert(e =~= pt + (live + rest));
    reveal(process_text);
    let b_up = block("marketfeed_up"@, "1 if process/supervisor is live"@, "gauge"@, flag(p.live));
    let b_ready = block("marketfeed_ready"@, "1 if readiness policy is satisfied"@, "gauge"@, flag(p.ready));
    let b_sessions = block("marketfeed_live_sessions"@, "Current live session count"@, "gauge"@, p.live_sessions as nat);
    let b_venues = block("marketfeed_venues_configured"@, "Configured venue count"@, "gauge"@, p.venues_configured as nat);
    let tail = pt.skip((b_up.len() + b_ready.len() + b_sessions.len() + b_venues.len()) as int);
    assert(pt =~= b_up + b_ready + b_sessions + b_venues + tail);
    lemma_block_has_sample("marketfeed_up"@, "1 if process/supervisor is live"@, "gauge"@, flag(p.live));
    lemma_block_has_sample("marketfeed_ready"@, "1 if readiness policy is satisfied"@, "gauge"@, flag(p.ready));
    lemma_block_has_sample("marketfeed_venues_configured"@, "Configured venue count"@, "gauge"@, p.venues_configured as nat);
    let o1 = b_up.len() as int;
    let o3 = (b_up.len() + b_ready.len() + b_sessions.len()) as int;
    assert(e.subrange(0, o1) =~= b_up);
    assert(e.subrange(o1, o1 + b_ready.len()) =~= b_ready);
    assert(e.subrange(o3, o3 + b_venues.len()) =~= b_venues);
    lemma_has_sub_within(b_up, e, 0, sample_line("marketfeed_up"@, flag(p.live)));
    lemma_has_sub_within(b_ready, e, o1, sample_line("marketfeed_ready"@, flag(p.ready)));
    lemma_has_sub_within(b_venues, e, o3, sample_line("marketfeed_venues_configured"@, p.venues_configured as nat));
    lemma_live_lines_count(flags, flags.len());
    assert(e.subrange(pt.len() as int, (pt.len() + live.len()) as int) =~= live);
    assert forall|i: int| 0 <= i < flags.len() implies has_sub(e, venue_live_line(#[trigger] flags[i])) by {
        lemma_live_lines_hold(flags, flags.len(), i);
        lemma_has_sub_within(live, e, pt.len() as int, venue_live_line(flags[i]));
    }
}

proof fn lemma_family_body_holds(samples: Seq<VenueSample>, k: nat, n: nat, i: int)
    requires
        n <= samples.len(),
        0 <= i < n,
    ensures
        has_sub(family_body(samples, k, n), family_line(samples[i], k)),
    decreases n,
{
    let prev = family_body(samples, k, (n - 1) as nat);
    let line = family_line(samples[n - 1], k);
    let all = prev + line;
    assert(family_body(samples, k, n) == all);
    if i < n - 1 {
        lemma_family_body_holds(samples, k, (n - 1) as nat, i);
        assert(all.subrange(0, prev.len() as int) =~= prev);
        lemma_has_sub_within(prev, all, 0, family_line(samples[i], k));
    } else {
        assert(all.subrange(prev.len() as int, all.len() as int) =~= line);
        assert(occurs_at(all, line, prev.len() as int));
    }
}

proof fn lemma_families_hold(samples: Seq<VenueSample>, m: nat, k: nat, i: int)
    requires
        k < m,
        0 <= i < samples.len(),
    ensures
        has_sub(families_text(samples, m), family_line(samples[i], k)),
    decreases m,
{
    let prev = families_text(samples, (m - 1) as nat);
    let fam = family_text(samples, (m - 1) as nat);
    let all = prev + fam;
    assert(families_text(samples, m) == all);
    let line = family_line(samples[i], k);
    if k < m - 1 {
        lemma_families_hold(samples, (m - 1) as nat, k, i);
        assert(all.subrange(0, prev.len() as int) =~= prev);
        lemma_has_sub_within(prev, all, 0, line);
    } else {
        let (suffix, help, ty) = family_info_spec(k);
        let head = "# HELP marketfeed_venue_"@ + suffix + " "@ + help + "\n# TYPE marketfeed_venue_"@ + suffix + " "@ + ty
            + "\n"@;
        let body = family_body(samples, k, samples.len());
        assert(fam =~= head + body);
        lemma_family_body_holds(samples, k, samples.len(), i);
        assert(fam.subrange(head.len() as int, fam.len() as int) =~= body);
        lemma_has_sub_within(body, fam, head.len() as int, line);
        assert(all.subrange(prev.len() as int, all.len() as int) =~= fam);
        lemma_has_sub_within(fam, all, prev.len() as int, line);
    }
}

/// The exposition reports every counter of every venue: for each venue and each of its
/// engine counters, the line `marketfeed_venue_<family>{id="<venue id>"} <value>` with
/// that venue's own value.
pub proof fn lemma_exposition_reports_every_venue_counter(
    p: ProcessGauges,
    flags: Seq<(String, bool)>,
    aggregate: Seq<char>,
    samples: Seq<VenueSample>,
    i: int,
    k: nat,
)
    requires
        0 <= i < samples.len(),
        k < 22,
    ensures
        has_sub(
            exposition(p, flags, aggregate, samples),
            "marketfeed_venue_"@ + family_info_spec(k).0 + "{id=\""@ + label_escape(samples[i].id@) + "\"} "@ + decimal(
                counter(samples[i].counters, k) as nat,
            ) + "\n"@,
        ),
{
    let e = exposition(p, flags, aggregate, samples);
    let front = process_text(p) + live_lines(flags, flags.len()) + aggregate;
    let fams = families_text(samples, family_count());
    assert(e =~= front + fams);
    lemma_families_hold(samples, family_count(), k, i);
    assert(e.subrange(front.len() as int, e.len() as int) =~= fams);
    lemma_has_sub_within(fams, e, front.len() as int, family_line(samples[i], k));
}

/// Each per-venue engine family reports the counter it is named after: `frames_received_total`
/// the frames received, `events_dropped_total` the events dropped, `queue_occupancy` the
/// batch queue's occupancy, and so on through `valid_books`.
pub proof fn lemma_venue_families_name_their_counters(c: VenueCounters)
    ensures
        family_info_spec(0).0 == "frames_received_total"@ && counter(c, 0) == c.frames_received,
        family_info_spec(1).0 == "frames_sent_total"@ && counter(c, 1) == c.frames_sent,
        family_info_spec(2).0 == "events_dispatched_total"@ && counter(c, 2) == c.events_dispatched,
        family_info_spec(3).0 == "bytes_received_total"@ && counter(c, 3) == c.bytes_received,
        family_info_spec(4).0 == "bytes_sent_total"@ && counter(c, 4) == c.bytes_sent,
        family_info_spec(5).0 == "events_normalized_total"@ && counter(c, 5) == c.events_normalized,
        family_info_spec(6).0 == "events_dropped_total"@ && counter(c, 6) == c.events_dropped,
        family_info_spec(7).0 == "queue_overflows_total"@ && counter(c, 7) == c.queue_overflows,
        family_info_spec(8).0 == "action_buffer_overflows_total"@ && counter(c, 8) == c.action_buffer_overflows,
        family_info_spec(9).0 == "reconnects_total"@ && counter(c, 9) == c.reconnects,
        family_info_spec(10).0 == "sequence_gaps_total"@ && counter(c, 10) == c.sequence_gaps,
        family_info_spec(11).0 == "checksum_mismatches_total"@ && counter(c, 11) == c.checksum_mismatches,
        family_info_spec(12).0 == "book_invalidations_total"@ && counter(c, 12) == c.book_invalidations,
        family_info_spec(13).0 == "book_snapshot_rejections_total"@ && counter(c, 13) == c.book_snapshot_rejections,
        family_info_spec(14).0 == "book_resynchronizations_total"@ && counter(c, 14) == c.book_resynchronizations,
        family_info_spec(15).0 == "parse_failures_total"@ && counter(c, 15) == c.parse_failures,
        family_info_spec(16).0 == "unknown_messages_total"@ && counter(c, 16) == c.unknown_messages,
        family_info_spec(17).0 == "queue_occupancy"@ && counter(c, 17) == c.batch_queue_occupancy,
        family_info_spec(18).0 == "batch_queue_capacity"@ && counter(c, 18) == c.batch_queue_capacity,
        family_info_spec(19).0 == "system_queue_occupancy"@ && counter(c, 19) == c.system_queue_occupancy,
        family_info_spec(20).0 == "system_queue_capacity"@ && counter(c, 20) == c.system_queue_capacity,
        family_info_spec(21).0 == "valid_books"@ && counter(c, 21) == c.valid_books,
{
    reveal(family_info_spec);
}

// ---------------------------------------------------------------------------
// Lines that begin with a given text.

/// Whether a line of `t` starts at position `i`.
pub open spec fn line_start(t: Seq<char>, i: int) -> bool {
    i == 0 || (0 < i <= t.len() && t[i - 1] == '\n')
}

/// How many lines of `t` that start at `i` or later begin with `p`.
pub open spec fn lines_from(t: Seq<char>, p: Seq<char>, i: int) -> nat
    decreases t.len() - i,
{
    if i < 0 || i >= t.len() {
        0
    } else {
        lines_from(t, p, i + 1) + (if line_start(t, i) && occurs_at(t, p, i) { 1nat } else { 0nat })
    }
}

/// How many lines of `t` begin with `p`.
pub open spec fn lines_beginning(t: Seq<char>, p: Seq<char>) -> nat {
    lines_from(t, p, 0)
}

/// Text made of whole lines: empty, or ending with a line break.
pub open spec fn whole_lines(t: Seq<char>) -> bool {
    t.len() == 0 || t.last() == '\n'
}

proof fn lemma_lines_shift(a: Seq<char>, b: Seq<char>, p: Seq<char>, j: int)
    requires
        whole_lines(a),
        0 <= j,
    ensures
        lines_from(a + b, p, a.len() + j) == lines_from(b, p, j),
    decreases b.len() - j,
{
    let t = a + b;
    if j < b.len() {
        lemma_lines_shift(a, b, p, j + 1);
        let i = a.len() + j;
        if j == 0 {
            if a.len() > 0 {
                assert(t[i - 1] == a.last());
            }
        } else {
            assert(t[i - 1] == b[j - 1]);
        }
        assert(line_start(t, i) == line_start(b, j));
        if i + p.len() <= t.len() {
            assert(t.subrange(i, i + p.len()) =~= b.subrange(j, j + p.len()));
        }
        assert(occurs_at(t, p, i) == occurs_at(b, p, j));
    }
}

proof fn lemma_lines_prefix(a: Seq<char>, b: Seq<char>, p: Seq<char>, i: int)
    requires
        whole_lines(a),
        !p.contains('\n'),
        0 <= i <= a.len(),
    ensures
        lines_from(a + b, p, i) == lines_from(a, p, i) + lines_from(b, p, 0),
    decreases a.len() - i,
{
    let t = a + b;
    if i == a.len() {
        lemma_lines_shift(a, b, p, 0);
    } else {
        lemma_lines_prefix(a, b, p, i + 1);
        if i > 0 {
            assert(t[i - 1] == a[i - 1]);
        }
        assert(line_start(t, i) == line_start(a, i));
        if i + p.len() <= a.len() {
            assert(t.subrange(i, i + p.len()) =~= a.subrange(i, i + p.len()));
        } else if occurs_at(t, p, i) {
            let k = a.len() - 1 - i;
            assert(t.subrange(i, i + p.len())[k] == t[a.len() - 1]);
            assert(t[a.len() - 1] == a.last());
            assert(p[k] == '\n');
        }
        assert(occurs_at(t, p, i) == occurs_at(a, p, i));
    }
}

/// Counting lines that begin with a text without line breaks adds over whole lines.
proof fn lemma_lines_concat(a: Seq<char>, b: Seq<char>, p: Seq<char>)
    requires
        whole_lines(a),
        !p.contains('\n'),
    ensures
        lines_beginning(a + b, p) == lines_beginning(a, p) + lines_beginning(b, p),
{
    lemma_lines_prefix(a, b, p, 0);
}

proof fn lemma_no_char_no_lines(t: Seq<char>, p: Seq<char>, c: char, i: int)
    requires
        !t.contains(c),
        p.contains(c),
    ensures
        lines_from(t, p, i) == 0,
    decreases t.len() - i,
{
    if 0 <= i < t.len() {
        lemma_no_char_no_lines(t, p, c, i + 1);
        if occurs_at(t, p, i) {
            let k = choose|k: int| 0 <= k < p.len() && p[k] == c;
            assert(t.subrange(i, i + p.len())[k] == t[i + k]);
            assert(t.contains(c));
        }
    }
}

proof fn lemma_prefix_fewer_lines(t: Seq<char>, p: Seq<char>, q: Seq<char>, i: int)
    requires
        q.len() <= p.len(),
        p.take(q.len() as int) == q,
    ensures
        lines_from(t, p, i) <= lines_from(t, q, i),
    decreases t.len() - i,
{
    if 0 <= i < t.len() {
        lemma_prefix_fewer_lines(t, p, q, i + 1);
        if occurs_at(t, p, i) {
            assert(t.subrange(i, i + q.len()) =~= t.subrange(i, i + p.len()).take(q.len() as int));
        }
    }
}

/// A text whose only line break is its last character: lines start there only at 0.
proof fn lemma_one_line(t: Seq<char>, p: Seq<char>, i: int)
    requires
        1 <= i,
        forall|k: int| 0 <= k < t.len() - 1 ==> t[k] != '\n',
    ensures
        lines_from(t, p, i) == 0,
    decreases t.len() - i,
{
    if i < t.len() {
        lemma_one_line(t, p, i + 1);
        assert(t[i - 1] != '\n');
    }
}

proof fn lemma_no_char_concat(a: Seq<char>, b: Seq<char>, c: char)
    requires
        !a.contains(c),
        !b.contains(c),
    ensures
        !(a + b).contains(c),
{
    assert forall|k: int| 0 <= k < (a + b).len() implies (a + b)[k] != c by {
        if k < a.len() {
            assert((a + b)[k] == a[k]);
            assert(!a.contains(c));
        } else {
            assert((a + b)[k] == b[k - a.len()]);
            assert(!b.contains(c));
        }
    }
}

proof fn lemma_decimal_plain(n: nat, c: char)
    requires
        !is_digit(c),
    ensures
        !decimal(n).contains(c),
{
    lemma_decimal_digits(n);
    assert forall|k: int| 0 <= k < decimal(n).len() implies decimal(n)[k] != c by {
        assert(is_digit(decimal(n)[k]));
    }
}

proof fn lemma_escape_front(c: char, x: Seq<char>)
    ensures
        label_escape(seq![c] + x) == label_char(c) + label_escape(x),
    decreases x.len(),
{
    if x.len() == 0 {
        assert(seq![c] + x =~= seq![c]);
        assert(seq![c].drop_last() =~= Seq::<char>::empty());
        assert(label_escape(Seq::<char>::empty()) =~= Seq::<char>::empty());
        assert(label_char(c) + label_escape(x) =~= label_char(c));
        assert(label_escape(seq![c]) =~= label_escape(Seq::<char>::empty()) + label_char(c));
    } else {
        lemma_escape_front(c, x.drop_last());
        assert((seq![c] + x).drop_last() =~= seq![c] + x.drop_last());
        assert((seq![c] + x).last() == x.last());
        assert(label_char(c) + label_escape(x.drop_last()) + label_char(x.last()) =~= label_char(c) + (label_escape(
            x.drop_last(),
        ) + label_char(x.last())));
    }
}

/// An escaped label value followed by a quote begins another escaped value followed by a
/// quote only when the two values are the same: escaping leaves no bare quote.
proof fn lemma_escape_quote_prefix(v: Seq<char>, w: Seq<char>, r: Seq<char>)
    requires
        (label_escape(v) + seq!['"']).len() <= (label_escape(w) + seq!['"'] + r).len(),
        (label_escape(w) + seq!['"'] + r).take((label_escape(v) + seq!['"']).len() as int) == label_escape(v) + seq!['"'],
    ensures
        v == w,
    decreases v.len(),
{
    let a = label_escape(v) + seq!['"'];
    let b = label_escape(w) + seq!['"'] + r;
    assert(a[0] == b[0]) by {
        assert(b.take(a.len() as int)[0] == b[0]);
    }
    if v.len() == 0 {
        assert(label_escape(v) =~= Seq::<char>::empty());
        if w.len() > 0 {
            lemma_escape_front(w[0], w.drop_first());
            assert(seq![w[0]] + w.drop_first() =~= w);
            assert(b[0] == label_char(w[0])[0]);
        } else {
            assert(v =~= w);
        }
    } else {
        let c = v[0];
        let v2 = v.drop_first();
        lemma_escape_front(c, v2);
        assert(seq![c] + v2 =~= v);
        if w.len() == 0 {
            assert(label_escape(w) =~= Seq::<char>::empty());
            assert(a[0] == label_char(c)[0]);
        } else {
            let d = w[0];
            let w2 = w.drop_first();
            lemma_escape_front(d, w2);
            assert(seq![d] + w2 =~= w);
            let lc = label_char(c);
            let ld = label_char(d);
            assert(a =~= lc + (label_escape(v2) + seq!['"']));
            assert(b =~= ld + (label_escape(w2) + seq!['"'] + r));
            assert(a[0] == lc[0] && b[0] == ld[0]);
            if lc.len() == 2 {
                assert(a[1] == b[1]) by {
                    assert(b.take(a.len() as int)[1] == b[1]);
                }
                assert(lc[1] == a[1]);
                assert(ld.len() == 2);
                assert(ld[1] == b[1]);
            }
            assert(c == d);
            let a2 = label_escape(v2) + seq!['"'];
            let b2 = label_escape(w2) + seq!['"'] + r;
            assert(b2.take(a2.len() as int) =~= b.take(a.len() as int).skip(lc.len() as int));
            assert(a2 =~= a.skip(lc.len() as int));
            lemma_escape_quote_prefix(v2, w2, r);
        }
    }
}

/// The start of a venue's liveness line, up to its value.
pub open spec fn live_prefix(id: Seq<char>) -> Seq<char> {
    "marketfeed_venue_live{id=\""@ + label_escape(id) + "\"} "@
}

/// The start of any venue liveness line.
pub open spec fn live_marker() -> Seq<char> {
    "marketfeed_venue_live{"@
}

proof fn lemma_live_prefix_facts(id: Seq<char>)
    ensures
        !live_prefix(id).contains('\n'),
        live_prefix(id).contains('{'),
        live_marker().len() <= live_prefix(id).len(),
        live_prefix(id).take(live_marker().len() as int) == live_marker(),
{
    reveal_strlit("marketfeed_venue_live{id=\"");
    reveal_strlit("marketfeed_venue_live{");
    reveal_strlit("\"} ");
    let head = "marketfeed_venue_live{id=\""@;
    let esc = label_escape(id);
    lemma_label_escape_has_no_newline(id);
    assert(!head.contains('\n'));
    assert(!"\"} "@.contains('\n'));
    lemma_no_char_concat(head, esc, '\n');
    lemma_no_char_concat(head + esc, "\"} "@, '\n');
    assert(live_prefix(id)[21] == '{');
    assert(live_prefix(id).take(live_marker().len() as int) =~= live_marker());
}

proof fn lemma_venue_line_lines(f: (String, bool), v: Seq<char>)
    ensures
        lines_beginning(venue_live_line(f), live_prefix(v)) == (if f.0@ == v { 1nat } else { 0nat }),
        whole_lines(venue_live_line(f)),
{
    reveal_strlit("marketfeed_venue_live{id=\"");
    reveal_strlit("\"} ");
    reveal_strlit("\n");
    let head = "marketfeed_venue_live{id=\""@;
    let mid = "\"} "@;
    let esc = label_escape(f.0@);
    let d = decimal(flag(f.1));
    let line = venue_live_line(f);
    let p = live_prefix(v);
    assert(line =~= head + esc + mid + d + "\n"@);
    lemma_label_escape_has_no_newline(f.0@);
    lemma_decimal_plain(flag(f.1), '\n');
    assert(!head.contains('\n'));
    assert(!mid.contains('\n'));
    lemma_no_char_concat(head, esc, '\n');
    lemma_no_char_concat(head + esc, mid, '\n');
    lemma_no_char_concat(head + esc + mid, d, '\n');
    let body = head + esc + mid + d;
    assert(line =~= body.push('\n'));
    assert forall|k: int| 0 <= k < line.len() - 1 implies line[k] != '\n' by {
        assert(line[k] == body[k]);
    }
    lemma_one_line(line, p, 1);
    if f.0@ == v {
        assert(line.subrange(0, p.len() as int) =~= p);
    } else if occurs_at(line, p, 0) {
        let rest = seq!['}', ' '] + d + "\n"@;
        let a = label_escape(v) + seq!['"'];
        let b = esc + seq!['"'] + rest;
        assert(line =~= head + b);
        assert(p =~= head + a + seq!['}', ' ']);
        let h = head.len() as int;
        assert(line.subrange(0, p.len() as int) == p);
        assert(line.subrange(h, h + a.len()) =~= b.take(a.len() as int));
        assert(p.subrange(h, h + a.len()) =~= a);
        assert(line.subrange(h, h + a.len()) =~= line.subrange(0, p.len() as int).subrange(h, h + a.len()));
        assert(b.take(a.len() as int) == a);
        lemma_escape_quote_prefix(v, f.0@, rest);
    }
}

proof fn lemma_live_section_lines(flags: Seq<(String, bool)>, n: nat, v: Seq<char>)
    requires
        n <= flags.len(),
    ensures
        whole_lines(live_lines(flags, n)),
        lines_beginning(live_lines(flags, n), live_prefix(v)) == live_ids_matching(flags, n, v),
    decreases n,
{
    lemma_live_prefix_facts(v);
    if n > 0 {
        lemma_live_section_lines(flags, (n - 1) as nat, v);
        lemma_venue_line_lines(flags[n - 1], v);
        lemma_lines_concat(live_lines(flags, (n - 1) as nat), venue_live_line(flags[n - 1]), live_prefix(v));
        let l = venue_live_line(flags[n - 1]);
        assert((live_lines(flags, (n - 1) as nat) + l).last() == l.last());
    } else {
        assert(live_lines(flags, 0).len() == 0);
    }
}

/// How many of the first `n` venues have the id `v`.
pub open spec fn live_ids_matching(flags: Seq<(String, bool)>, n: nat, v: Seq<char>) -> nat
    decreases n,
{
    if n == 0 || n > flags.len() {
        0
    } else {
        live_ids_matching(flags, (n - 1) as nat, v) + (if flags[n - 1].0@ == v { 1nat } else { 0nat })
    }
}

proof fn lemma_distinct_ids_match_once(flags: Seq<(String, bool)>, n: nat, i: int)
    requires
        n <= flags.len(),
        forall|j: int, k: int| 0 <= j < k < flags.len() ==> flags[j].0@ != flags[k].0@,
        0 <= i < flags.len(),
    ensures
        live_ids_matching(flags, n, flags[i].0@) == (if i < n { 1nat } else { 0nat }),
    decreases n,
{
    if n > 0 {
        lemma_distinct_ids_match_once(flags, (n - 1) as nat, i);
        if n - 1 != i {
            if (n - 1) < i {
                assert(flags[n - 1].0@ != flags[i].0@);
            } else {
                assert(flags[i].0@ != flags[n - 1].0@);
            }
        }
    }
}

proof fn lemma_block_plain(name: Seq<char>, help: Seq<char>, ty: Seq<char>, value: nat)
    requires
        !name.contains('{'),
        !help.contains('{'),
        !ty.contains('{'),
    ensures
        !block(name, help, ty, value).contains('{'),
        block(name, help, ty, value).len() > 0,
        block(name, help, ty, value).last() == '\n',
{
    reveal(block);
    reveal_strlit("# HELP ");
    reveal_strlit(" ");
    reveal_strlit("\n# TYPE ");
    reveal_strlit("\n");
    assert(!"# HELP "@.contains('{'));
    assert(!" "@.contains('{'));
    assert(!"\n# TYPE "@.contains('{'));
    assert(!"\n"@.contains('{'));
    lemma_decimal_plain(value, '{');
    let a1 = "# HELP "@ + name;
    lemma_no_char_concat("# HELP "@, name, '{');
    lemma_no_char_concat(a1, " "@, '{');
    lemma_no_char_concat(a1 + " "@, help, '{');
    lemma_no_char_concat(a1 + " "@ + help, "\n# TYPE "@, '{');
    lemma_no_char_concat(a1 + " "@ + help + "\n# TYPE "@, name, '{');
    lemma_no_char_concat(a1 + " "@ + help + "\n# TYPE "@ + name, " "@, '{');
    lemma_no_char_concat(a1 + " "@ + help + "\n# TYPE "@ + name + " "@, ty, '{');
    lemma_no_char_concat(a1 + " "@ + help + "\n# TYPE "@ + name + " "@ + ty, "\n"@, '{');
    lemma_no_char_concat(a1 + " "@ + help + "\n# TYPE "@ + name + " "@ + ty + "\n"@, name, '{');
    lemma_no_char_concat(a1 + " "@ + help + "\n# TYPE "@ + name + " "@ + ty + "\n"@ + name, " "@, '{');
    lemma_no_char_concat(a1 + " "@ + help + "\n# TYPE "@ + name + " "@ + ty + "\n"@ + name + " "@, decimal(value), '{');
    lemma_no_char_concat(
        a1 + " "@ + help + "\n# TYPE "@ + name + " "@ + ty + "\n"@ + name + " "@ + decimal(value),
        "\n"@,
        '{',
    );
}

proof fn lemma_process_text_plain(p: ProcessGauges)
    ensures
        !process_text(p).contains('{'),
        whole_lines(process_text(p)),
{
    reveal(process_text);
    reveal_strlit("1 if free space below threshold");
    reveal_strlit("1 if process/supervisor is live");
    reveal_strlit("1 if raw recording is enabled");
    reveal_strlit("1 if readiness policy is satisfied");
    reveal_strlit("1 if recording path is healthy");
    reveal_strlit("1 while graceful shutdown drains");
    reveal_strlit("Configured venue count");
    reveal_strlit("Current live session count");
    reveal_strlit("Frames written");
    reveal_strlit("Health HTTP requests");
    reveal_strlit("Pending recording frames");
    reveal_strlit("Raw frames dropped before persistence");
    reveal_strlit("Segment rotations");
    reveal_strlit("Unix start time");
    reveal_strlit("counter");
    reveal_strlit("gauge");
    reveal_strlit("marketfeed_disk_pressure");
    reveal_strlit("marketfeed_http_requests_total");
    reveal_strlit("marketfeed_live_sessions");
    reveal_strlit("marketfeed_process_start_time_seconds");
    reveal_strlit("marketfeed_ready");
    reveal_strlit("marketfeed_recording_enabled");
    reveal_strlit("marketfeed_recording_frames_dropped_total");
    reveal_strlit("marketfeed_recording_healthy");
    reveal_strlit("marketfeed_recording_queue_len");
    reveal_strlit("marketfeed_recording_records_written_total");
    reveal_strlit("marketfeed_recording_rotations_total");
    reveal_strlit("marketfeed_shutdown_draining");
    reveal_strlit("marketfeed_up");
    reveal_strlit("marketfeed_venues_configured");
    assert(!"1 if free space below threshold"@.contains('{'));
    assert(!"1 if process/supervisor is live"@.contains('{'));
    assert(!"1 if raw recording is enabled"@.contains('{'));
    assert(!"1 if readiness policy is satisfied"@.contains('{'));
    assert(!"1 if recording path is healthy"@.contains('{'));
    assert(!"1 while graceful shutdown drains"@.contains('{'));
    assert(!"Configured venue count"@.contains('{'));
    assert(!"Current live session count"@.contains('{'));
    assert(!"Frames written"@.contains('{'));
    assert(!"Health HTTP requests"@.contains('{'));
    assert(!"Pending recording frames"@.contains('{'));
    assert(!"Raw frames dropped before persistence"@.contains('{'));
    assert(!"Segment rotations"@.contains('{'));
    assert(!"Unix start time"@.contains('{'));
    assert(!"counter"@.contains('{'));
    assert(!"gauge"@.contains('{'));
    assert(!"marketfeed_disk_pressure"@.contains('{'));
    assert(!"marketfeed_http_requests_total"@.contains('{'));
    assert(!"marketfeed_live_sessions"@.contains('{'));
    assert(!"marketfeed_process_start_time_seconds"@.contains('{'));
    assert(!"marketfeed_ready"@.contains('{'));
    assert(!"marketfeed_recording_enabled"@.contains('{'));
    assert(!"marketfeed_recording_frames_dropped_total"@.contains('{'));
    assert(!"marketfeed_recording_healthy"@.contains('{'));
    assert(!"marketfeed_recording_queue_len"@.contains('{'));
    assert(!"marketfeed_recording_records_written_total"@.contains('{'));
    assert(!"marketfeed_recording_rotations_total"@.contains('{'));
    assert(!"marketfeed_shutdown_draining"@.contains('{'));
    assert(!"marketfeed_up"@.contains('{'));
    assert(!"marketfeed_venues_configured"@.contains('{'));
    lemma_block_plain("marketfeed_up"@, "1 if process/supervisor is live"@, "gauge"@, flag(p.live));
    lemma_block_plain("marketfeed_ready"@, "1 if readiness policy is satisfied"@, "gauge"@, flag(p.ready));
    lemma_block_plain("marketfeed_live_sessions"@, "Current live session count"@, "gauge"@, p.live_sessions as nat);
    lemma_block_plain("marketfeed_venues_configured"@, "Configured venue count"@, "gauge"@, p.venues_configured as nat);
    lemma_block_plain("marketfeed_http_requests_total"@, "Health HTTP requests"@, "counter"@, p.http_requests as nat);
    lemma_block_plain("marketfeed_process_start_time_seconds"@, "Unix start time"@, "gauge"@, p.started_unix_secs as nat);
    lemma_block_plain("marketfeed_recording_enabled"@, "1 if raw recording is enabled"@, "gauge"@, flag(p.recording_enabled));
    lemma_block_plain("marketfeed_recording_healthy"@, "1 if recording path is healthy"@, "gauge"@, flag(p.recording_healthy));
    lemma_block_plain("marketfeed_recording_queue_len"@, "Pending recording frames"@, "gauge"@, p.recording_queue_len as nat);
    lemma_block_plain("marketfeed_recording_rotations_total"@, "Segment rotations"@, "counter"@, p.recording_rotations as nat);
    lemma_block_plain("marketfeed_recording_records_written_total"@, "Frames written"@, "counter"@, p.recording_written as nat);
    lemma_block_plain("marketfeed_recording_frames_dropped_total"@, "Raw frames dropped before persistence"@, "counter"@, p.recording_dropped as nat);
    lemma_block_plain("marketfeed_disk_pressure"@, "1 if free space below threshold"@, "gauge"@, flag(p.disk_pressure));
    lemma_block_plain("marketfeed_shutdown_draining"@, "1 while graceful shutdown drains"@, "gauge"@, flag(p.shutdown_draining));
    let b0 = block("marketfeed_up"@, "1 if process/supervisor is live"@, "gauge"@, flag(p.live));
    let b1 = block("marketfeed_ready"@, "1 if readiness policy is satisfied"@, "gauge"@, flag(p.ready));
    let b2 = block("marketfeed_live_sessions"@, "Current live session count"@, "gauge"@, p.live_sessions as nat);
    let b3 = block("marketfeed_venues_configured"@, "Configured venue count"@, "gauge"@, p.venues_configured as nat);
    let b4 = block("marketfeed_http_requests_total"@, "Health HTTP requests"@, "counter"@, p.http_requests as nat);
    let b5 = block("marketfeed_process_start_time_seconds"@, "Unix start time"@, "gauge"@, p.started_unix_secs as nat);
    let b6 = block("marketfeed_recording_enabled"@, "1 if raw recording is enabled"@, "gauge"@, flag(p.recording_enabled));
    let b7 = block("marketfeed_recording_healthy"@, "1 if recording path is healthy"@, "gauge"@, flag(p.recording_healthy));
    let b8 = block("marketfeed_recording_queue_len"@, "Pending recording frames"@, "gauge"@, p.recording_queue_len as nat);
    let b9 = block("marketfeed_recording_rotations_total"@, "Segment rotations"@, "counter"@, p.recording_rotations as nat);
    let b10 = block("marketfeed_recording_records_written_total"@, "Frames written"@, "counter"@, p.recording_written as nat);
    let b11 = block("marketfeed_recording_frames_dropped_total"@, "Raw frames dropped before persistence"@, "counter"@, p.recording_dropped as nat);
    let b12 = block("marketfeed_disk_pressure"@, "1 if free space below threshold"@, "gauge"@, flag(p.disk_pressure));
    let b13 = block("marketfeed_shutdown_draining"@, "1 while graceful shutdown drains"@, "gauge"@, flag(p.shutdown_draining));
    let acc0 = b0;
    lemma_no_char_concat(acc0, b1, '{');
    let acc1 = acc0 + b1;
    lemma_no_char_concat(acc1, b2, '{');
    let acc2 = acc1 + b2;
    lemma_no_char_concat(acc2, b3, '{');
    let acc3 = acc2 + b3;
    lemma_no_char_concat(acc3, b4, '{');
    let acc4 = acc3 + b4;
    lemma_no_char_concat(acc4, b5, '{');
    let acc5 = acc4 + b5;
    lemma_no_char_concat(acc5, b6, '{');
    let acc6 = acc5 + b6;
    lemma_no_char_concat(acc6, b7, '{');
    let acc7 = acc6 + b7;
    lemma_no_char_concat(acc7, b8, '{');
    let acc8 = acc7 + b8;
    lemma_no_char_concat(acc8, b9, '{');
    let acc9 = acc8 + b9;
    lemma_no_char_concat(acc9, b10, '{');
    let acc10 = acc9 + b10;
    lemma_no_char_concat(acc10, b11, '{');
    let acc11 = acc10 + b11;
    lemma_no_char_concat(acc11, b12, '{');
    let acc12 = acc11 + b12;
    lemma_no_char_concat(acc12, b13, '{');
    let acc13 = acc12 + b13;
    assert(process_text(p) == acc13);
    assert(acc13.last() == b13.last());
}

/// Each per-venue family's name suffix is a plain word that does not start with `l`, and
/// neither it, its help text nor its type holds a brace.
proof fn lemma_family_info_plain(k: nat)
    requires
        k < family_count(),
    ensures
        family_info_spec(k).0.len() > 0,
        family_info_spec(k).0[0] != 'l',
        !family_info_spec(k).0.contains('{'),
        !family_info_spec(k).0.contains('\n'),
        !family_info_spec(k).1.contains('{'),
        !family_info_spec(k).2.contains('{'),
{
    reveal(family_info_spec);
    if k == 0 {
        reveal_strlit("frames_received_total");
        reveal_strlit("Per-venue inbound frames");
        reveal_strlit("counter");
        assert("frames_received_total"@[0] != 'l');
        assert(!"frames_received_total"@.contains('{') && !"frames_received_total"@.contains('\n'));
        assert(!"Per-venue inbound frames"@.contains('{'));
        assert(!"counter"@.contains('{'));
    } else if k == 1 {
        reveal_strlit("frames_sent_total");
        reveal_strlit("Per-venue outbound frames");
        reveal_strlit("counter");
        assert("frames_sent_total"@[0] != 'l');
        assert(!"frames_sent_total"@.contains('{') && !"frames_sent_total"@.contains('\n'));
        assert(!"Per-venue outbound frames"@.contains('{'));
        assert(!"counter"@.contains('{'));
    } else if k == 2 {
        reveal_strlit("events_dispatched_total");
        reveal_strlit("Per-venue dispatched events");
        reveal_strlit("counter");
        assert("events_dispatched_total"@[0] != 'l');
        assert(!"events_dispatched_total"@.contains('{') && !"events_dispatched_total"@.contains('\n'));
        assert(!"Per-venue dispatched events"@.contains('{'));
        assert(!"counter"@.contains('{'));
    } else if k == 3 {
        reveal_strlit("bytes_received_total");
        reveal_strlit("Per-venue inbound payload bytes");
        reveal_strlit("counter");
        assert("bytes_received_total"@[0] != 'l');
        assert(!"bytes_received_total"@.contains('{') && !"bytes_received_total"@.contains('\n'));
        assert(!"Per-venue inbound payload bytes"@.contains('{'));
        assert(!"counter"@.contains('{'));
    } else if k == 4 {
        reveal_strlit("bytes_sent_total");
        reveal_strlit("Per-venue outbound payload bytes");
        reveal_strlit("counter");
        assert("bytes_sent_total"@[0] != 'l');
        assert(!"bytes_sent_total"@.contains('{') && !"bytes_sent_total"@.contains('\n'));
        assert(!"Per-venue outbound payload bytes"@.contains('{'));
        assert(!"counter"@.contains('{'));
    } else if k == 5 {
        reveal_strlit("events_normalized_total");
        reveal_strlit("Per-venue normalized market events");
        reveal_strlit("counter");
        assert("events_normalized_total"@[0] != 'l');
        assert(!"events_normalized_total"@.contains('{') && !"events_normalized_total"@.contains('\n'));
        assert(!"Per-venue normalized market events"@.contains('{'));
        assert(!"counter"@.contains('{'));
    } else if k == 6 {
        reveal_strlit("events_dropped_total");
        reveal_strlit("Per-venue dropped events");
        reveal_strlit("counter");
        assert("events_dropped_total"@[0] != 'l');
        assert(!"events_dropped_total"@.contains('{') && !"events_dropped_total"@.contains('\n'));
        assert(!"Per-venue dropped events"@.contains('{'));
        assert(!"counter"@.contains('{'));
    } else if k == 7 {
        reveal_strlit("queue_overflows_total");
        reveal_strlit("Per-venue queue overflow incidents");
        reveal_strlit("counter");
        assert("queue_overflows_total"@[0] != 'l');
        assert(!"queue_overflows_total"@.contains('{') && !"queue_overflows_total"@.contains('\n'));
        assert(!"Per-venue queue overflow incidents"@.contains('{'));
        assert(!"counter"@.contains('{'));
    } else if k == 8 {
        reveal_strlit("action_buffer_overflows_total");
        reveal_strlit("Per-venue ActionBuffer overflow incidents");
        reveal_strlit("counter");
        assert("action_buffer_overflows_total"@[0] != 'l');
        assert(!"action_buffer_overflows_total"@.contains('{') && !"action_buffer_overflows_total"@.contains('\n'));
        assert(!"Per-venue ActionBuffer overflow incidents"@.contains('{'));
        assert(!"counter"@.contains('{'));
    } else if k == 9 {
        reveal_strlit("reconnects_total");
        reveal_strlit("Per-venue reconnects");
        reveal_strlit("counter");
        assert("reconnects_total"@[0] != 'l');
        assert(!"reconnects_total"@.contains('{') && !"reconnects_total"@.contains('\n'));
        assert(!"Per-venue reconnects"@.contains('{'));
        assert(!"counter"@.contains('{'));
    } else if k == 10 {
        reveal_strlit("sequence_gaps_total");
        reveal_strlit("Per-venue sequence gaps");
        reveal_strlit("counter");
        assert("sequence_gaps_total"@[0] != 'l');
        assert(!"sequence_gaps_total"@.contains('{') && !"sequence_gaps_total"@.contains('\n'));
        assert(!"Per-venue sequence gaps"@.contains('{'));
        assert(!"counter"@.contains('{'));
    } else if k == 11 {
        reveal_strlit("checksum_mismatches_total");
        reveal_strlit("Per-venue checksum mismatches");
        reveal_strlit("counter");
        assert("checksum_mismatches_total"@[0] != 'l');
        assert(!"checksum_mismatches_total"@.contains('{') && !"checksum_mismatches_total"@.contains('\n'));
        assert(!"Per-venue checksum mismatches"@.contains('{'));
        assert(!"counter"@.contains('{'));
    } else if k == 12 {
        reveal_strlit("book_invalidations_total");
        reveal_strlit("Per-venue book invalidations");
        reveal_strlit("counter");
        assert("book_invalidations_total"@[0] != 'l');
        assert(!"book_invalidations_total"@.contains('{') && !"book_invalidations_total"@.contains('\n'));
        assert(!"Per-venue book invalidations"@.contains('{'));
        assert(!"counter"@.contains('{'));
    } else if k == 13 {
        reveal_strlit("book_snapshot_rejections_total");
        reveal_strlit("Per-venue rejected replacement book snapshots");
        reveal_strlit("counter");
        assert("book_snapshot_rejections_total"@[0] != 'l');
        assert(!"book_snapshot_rejections_total"@.contains('{') && !"book_snapshot_rejections_total"@.contains('\n'));
        assert(!"Per-venue rejected replacement book snapshots"@.contains('{'));
        assert(!"counter"@.contains('{'));
    } else if k == 14 {
        reveal_strlit("book_resynchronizations_total");
        reveal_strlit("Per-venue book resynchronizations");
        reveal_strlit("counter");
        assert("book_resynchronizations_total"@[0] != 'l');
        assert(!"book_resynchronizations_total"@.contains('{') && !"book_resynchronizations_total"@.contains('\n'));
        assert(!"Per-venue book resynchronizations"@.contains('{'));
        assert(!"counter"@.contains('{'));
    } else if k == 15 {
        reveal_strlit("parse_failures_total");
        reveal_strlit("Per-venue parse failures");
        reveal_strlit("counter");
        assert("parse_failures_total"@[0] != 'l');
        assert(!"parse_failures_total"@.contains('{') && !"parse_failures_total"@.contains('\n'));
        assert(!"Per-venue parse failures"@.contains('{'));
        assert(!"counter"@.contains('{'));
    } else if k == 16 {
        reveal_strlit("unknown_messages_total");
        reveal_strlit("Per-venue unknown message events");
        reveal_strlit("counter");
        assert("unknown_messages_total"@[0] != 'l');
        assert(!"unknown_messages_total"@.contains('{') && !"unknown_messages_total"@.contains('\n'));
        assert(!"Per-venue unknown message events"@.contains('{'));
        assert(!"counter"@.contains('{'));
    } else if k == 17 {
        reveal_strlit("queue_occupancy");
        reveal_strlit("Per-venue dispatch queue occupancy");
        reveal_strlit("gauge");
        assert("queue_occupancy"@[0] != 'l');
        assert(!"queue_occupancy"@.contains('{') && !"queue_occupancy"@.contains('\n'));
        assert(!"Per-venue dispatch queue occupancy"@.contains('{'));
        assert(!"gauge"@.contains('{'));
    } else if k == 18 {
        reveal_strlit("batch_queue_capacity");
        reveal_strlit("Per-venue dispatch batch queue capacity");
        reveal_strlit("gauge");
        assert("batch_queue_capacity"@[0] != 'l');
        assert(!"batch_queue_capacity"@.contains('{') && !"batch_queue_capacity"@.contains('\n'));
        assert(!"Per-venue dispatch batch queue capacity"@.contains('{'));
        assert(!"gauge"@.contains('{'));
    } else if k == 19 {
        reveal_strlit("system_queue_occupancy");
        reveal_strlit("Per-venue dispatch system queue occupancy");
        reveal_strlit("gauge");
        assert("system_queue_occupancy"@[0] != 'l');
        assert(!"system_queue_occupancy"@.contains('{') && !"system_queue_occupancy"@.contains('\n'));
        assert(!"Per-venue dispatch system queue occupancy"@.contains('{'));
        assert(!"gauge"@.contains('{'));
    } else if k == 20 {
        reveal_strlit("system_queue_capacity");
        reveal_strlit("Per-venue dispatch system queue capacity");
        reveal_strlit("gauge");
        assert("system_queue_capacity"@[0] != 'l');
        assert(!"system_queue_capacity"@.contains('{') && !"system_queue_capacity"@.contains('\n'));
        assert(!"Per-venue dispatch system queue capacity"@.contains('{'));
        assert(!"gauge"@.contains('{'));
    } else if k == 21 {
        reveal_strlit("valid_books");
        reveal_strlit("Per-venue valid books");
        reveal_strlit("gauge");
        assert("valid_books"@[0] != 'l');
        assert(!"valid_books"@.contains('{') && !"valid_books"@.contains('\n'));
        assert(!"Per-venue valid books"@.contains('{'));
        assert(!"gauge"@.contains('{'));
    } else if k == 22 {
        reveal_strlit("frame_to_event_latency_seconds");
        reveal_strlit("Per-venue frame ingress to action-apply latency");
        reveal_strlit("histogram");
        assert("frame_to_event_latency_seconds"@[0] != 'l');
        assert(!"frame_to_event_latency_seconds"@.contains('{') && !"frame_to_event_latency_seconds"@.contains('\n'));
        assert(!"Per-venue frame ingress to action-apply latency"@.contains('{'));
        assert(!"histogram"@.contains('{'));
    } else if k == 23 {
        reveal_strlit("parse_duration_seconds");
        reveal_strlit("Per-venue SessionMachine parse and normalization latency");
        reveal_strlit("histogram");
        assert("parse_duration_seconds"@[0] != 'l');
        assert(!"parse_duration_seconds"@.contains('{') && !"parse_duration_seconds"@.contains('\n'));
        assert(!"Per-venue SessionMachine parse and normalization latency"@.contains('{'));
        assert(!"histogram"@.contains('{'));
    } else if k == 24 {
        reveal_strlit("rest_latency_seconds");
        reveal_strlit("Per-venue HTTP request round-trip latency");
        reveal_strlit("histogram");
        assert("rest_latency_seconds"@[0] != 'l');
        assert(!"rest_latency_seconds"@.contains('{') && !"rest_latency_seconds"@.contains('\n'));
        assert(!"Per-venue HTTP request round-trip latency"@.contains('{'));
        assert(!"histogram"@.contains('{'));
    } else if k == 25 {
        reveal_strlit("sink_write_latency_seconds");
        reveal_strlit("Per-venue configured sink forward-drain latency");
        reveal_strlit("histogram");
        assert("sink_write_latency_seconds"@[0] != 'l');
        assert(!"sink_write_latency_seconds"@.contains('{') && !"sink_write_latency_seconds"@.contains('\n'));
        assert(!"Per-venue configured sink forward-drain latency"@.contains('{'));
        assert(!"histogram"@.contains('{'));
    }
}

/// Text rendered by others into the exposition (the engine's series, the latency
/// histograms) that is made of whole lines, none of them a venue liveness line.
pub open spec fn foreign_lines_ok(t: Seq<char>) -> bool {
    whole_lines(t) && lines_beginning(t, live_marker()) == 0
}

pub open spec fn histograms_ok(samples: Seq<VenueSample>) -> bool {
    forall|j: int, h: nat| 0 <= j < samples.len() && h < 4 ==> foreign_lines_ok(#[trigger] histogram(samples[j], h))
}

proof fn lemma_foreign_lines(t: Seq<char>, v: Seq<char>)
    requires
        foreign_lines_ok(t),
    ensures
        lines_beginning(t, live_prefix(v)) == 0,
{
    lemma_live_prefix_facts(v);
    lemma_prefix_fewer_lines(t, live_prefix(v), live_marker(), 0);
}

proof fn lemma_family_line_lines(smp: VenueSample, k: nat, v: Seq<char>)
    requires
        k < family_count(),
        k >= 22 ==> foreign_lines_ok(histogram(smp, (k - 22) as nat)),
    ensures
        whole_lines(family_line(smp, k)),
        lines_beginning(family_line(smp, k), live_prefix(v)) == 0,
{
    if k >= 22 {
        lemma_foreign_lines(histogram(smp, (k - 22) as nat), v);
    } else {
        reveal_strlit("marketfeed_venue_");
        reveal_strlit("{id=\"");
        reveal_strlit("\"} ");
        reveal_strlit("\n");
        reveal_strlit("marketfeed_venue_live{id=\"");
        lemma_family_info_plain(k);
        let suffix = family_info_spec(k).0;
        let esc = label_escape(smp.id@);
        let d = decimal(counter(smp.counters, k) as nat);
        let head = "marketfeed_venue_"@;
        let line = family_line(smp, k);
        assert(!head.contains('\n'));
        assert(!"{id=\""@.contains('\n'));
        assert(!"\"} "@.contains('\n'));
        lemma_label_escape_has_no_newline(smp.id@);
        lemma_decimal_plain(counter(smp.counters, k) as nat, '\n');
        lemma_no_char_concat(head, suffix, '\n');
        lemma_no_char_concat(head + suffix, "{id=\""@, '\n');
        lemma_no_char_concat(head + suffix + "{id=\""@, esc, '\n');
        lemma_no_char_concat(head + suffix + "{id=\""@ + esc, "\"} "@, '\n');
        lemma_no_char_concat(head + suffix + "{id=\""@ + esc + "\"} "@, d, '\n');
        let body = head + suffix + "{id=\""@ + esc + "\"} "@ + d;
        assert(line =~= body.push('\n'));
        assert forall|j: int| 0 <= j < line.len() - 1 implies line[j] != '\n' by {
            assert(line[j] == body[j]);
        }
        let p = live_prefix(v);
        lemma_one_line(line, p, 1);
        assert(line[17] == suffix[0]);
        assert(p[17] == 'l');
        if occurs_at(line, p, 0) {
            assert(line.subrange(0, p.len() as int)[17] == line[17]);
        }
    }
}

proof fn lemma_family_body_lines(samples: Seq<VenueSample>, k: nat, n: nat, v: Seq<char>)
    requires
        k < family_count(),
        n <= samples.len(),
        histograms_ok(samples),
    ensures
        whole_lines(family_body(samples, k, n)),
        lines_beginning(family_body(samples, k, n), live_prefix(v)) == 0,
    decreases n,
{
    lemma_live_prefix_facts(v);
    if n > 0 {
        lemma_family_body_lines(samples, k, (n - 1) as nat, v);
        if k >= 22 {
            assert(foreign_lines_ok(histogram(samples[n - 1], (k - 22) as nat)));
        }
        lemma_family_line_lines(samples[n - 1], k, v);
        let a = family_body(samples, k, (n - 1) as nat);
        let b = family_line(samples[n - 1], k);
        lemma_lines_concat(a, b, live_prefix(v));
        if b.len() > 0 {
            assert((a + b).last() == b.last());
        } else {
            assert(a + b =~= a);
        }
    } else {
        assert(family_body(samples, k, 0).len() == 0);
    }
}

proof fn lemma_family_text_lines(samples: Seq<VenueSample>, k: nat, v: Seq<char>)
    requires
        k < family_count(),
        histograms_ok(samples),
    ensures
        whole_lines(family_text(samples, k)),
        lines_beginning(family_text(samples, k), live_prefix(v)) == 0,
{
    reveal_strlit("# HELP marketfeed_venue_");
    reveal_strlit(" ");
    reveal_strlit("\n# TYPE marketfeed_venue_");
    reveal_strlit("\n");
    lemma_family_info_plain(k);
    lemma_live_prefix_facts(v);
    let (suffix, help, ty) = family_info_spec(k);
    let h1 = "# HELP marketfeed_venue_"@;
    let h2 = "\n# TYPE marketfeed_venue_"@;
    assert(!h1.contains('{'));
    assert(!" "@.contains('{'));
    assert(!h2.contains('{'));
    assert(!"\n"@.contains('{'));
    lemma_no_char_concat(h1, suffix, '{');
    lemma_no_char_concat(h1 + suffix, " "@, '{');
    lemma_no_char_concat(h1 + suffix + " "@, help, '{');
    lemma_no_char_concat(h1 + suffix + " "@ + help, h2, '{');
    lemma_no_char_concat(h1 + suffix + " "@ + help + h2, suffix, '{');
    lemma_no_char_concat(h1 + suffix + " "@ + help + h2 + suffix, " "@, '{');
    lemma_no_char_concat(h1 + suffix + " "@ + help + h2 + suffix + " "@, ty, '{');
    lemma_no_char_concat(h1 + suffix + " "@ + help + h2 + suffix + " "@ + ty, "\n"@, '{');
    let header = h1 + suffix + " "@ + help + h2 + suffix + " "@ + ty + "\n"@;
    let body = family_body(samples, k, samples.len());
    assert(family_text(samples, k) == header + body);
    lemma_no_char_no_lines(header, live_prefix(v), '{', 0);
    lemma_family_body_lines(samples, k, samples.len(), v);
    lemma_lines_concat(header, body, live_prefix(v));
    assert(header.last() == '\n');
    if body.len() > 0 {
        assert((header + body).last() == body.last());
    } else {
        assert(header + body =~= header);
    }
}

proof fn lemma_families_lines(samples: Seq<VenueSample>, m: nat, v: Seq<char>)
    requires
        m <= family_count(),
        histograms_ok(samples),
    ensures
        whole_lines(families_text(samples, m)),
        lines_beginning(families_text(samples, m), live_prefix(v)) == 0,
    decreases m,
{
    lemma_live_prefix_facts(v);
    if m > 0 {
        lemma_families_lines(samples, (m - 1) as nat, v);
        lemma_family_text_lines(samples, (m - 1) as nat, v);
        let a = families_text(samples, (m - 1) as nat);
        let b = family_text(samples, (m - 1) as nat);
        lemma_lines_concat(a, b, live_prefix(v));
        if b.len() > 0 {
            assert((a + b).last() == b.last());
        } else {
            assert(a + b =~= a);
        }
    } else {
        assert(families_text(samples, 0).len() == 0);
    }
}

proof fn lemma_whole_concat(a: Seq<char>, b: Seq<char>)
    requires
        whole_lines(a),
        whole_lines(b),
    ensures
        whole_lines(a + b),
{
    if b.len() > 0 {
        assert((a + b).last() == b.last());
    } else {
        assert(a + b =~= a);
    }
}

/// When the venue ids are distinct, and the text others render into the exposition
/// (the engine's series and the latency histograms) is whole lines none of which is a
/// venue liveness line, exactly one line of the exposition begins with a venue's
/// liveness prefix, and the exposition holds that venue's line, `venue_live_line`, which
/// shows 1 when the venue is live and 0 otherwise.
pub proof fn lemma_exposition_has_one_liveness_line_per_venue(
    p: ProcessGauges,
    flags: Seq<(String, bool)>,
    aggregate: Seq<char>,
    samples: Seq<VenueSample>,
    i: int,
)
    requires
        0 <= i < flags.len(),
        forall|j: int, k: int| 0 <= j < k < flags.len() ==> flags[j].0@ != flags[k].0@,
        foreign_lines_ok(aggregate),
        histograms_ok(samples),
    ensures
        lines_beginning(exposition(p, flags, aggregate, samples), live_prefix(flags[i].0@)) == 1,
        has_sub(exposition(p, flags, aggregate, samples), venue_live_line(flags[i])),
{
    let v = flags[i].0@;
    let pp = live_prefix(v);
    let pt = process_text(p);
    let live = live_lines(flags, flags.len());
    let fam = families_text(samples, family_count());
    lemma_live_prefix_facts(v);
    lemma_process_text_plain(p);
    lemma_no_char_no_lines(pt, pp, '{', 0);
    lemma_live_section_lines(flags, flags.len(), v);
    lemma_distinct_ids_match_once(flags, flags.len(), i);
    lemma_foreign_lines(aggregate, v);
    lemma_families_lines(samples, family_count(), v);
    lemma_lines_concat(pt, live, pp);
    lemma_whole_concat(pt, live);
    lemma_lines_concat(pt + live, aggregate, pp);
    lemma_whole_concat(pt + live, aggregate);
    lemma_lines_concat(pt + live + aggregate, fam, pp);
    assert(exposition(p, flags, aggregate, samples) == pt + live + aggregate + fam);
    lemma_exposition_reports_liveness(p, flags, aggregate, samples);
}

} // verus!
