//! Sink workers: what each `[[sinks]]` entry asks to be opened, how a worker books what
//! happens to each item it is handed, and how a worker's drain at shutdown ends.

use vstd::prelude::*;

use crate::config::{opt_view, ConfigError};
use crate::mailbox::{EnqueueAccounting, SinkSnapshot};
use crate::queue::{OverflowPolicy, PushOutcome};
use crate::sink_config::{SinkConfig, SinkKind};
use crate::text::{decimal, decimal_string};

verus! {

broadcast use vstd::string::group_string_axioms;

// ---------------------------------------------------------------------------
// Planning.

/// What a worker opens for its sink.
#[derive(Debug, Clone, PartialEq, Eq)]
pub enum SinkTarget {
    /// An in-process sink (`memory`, `logging`).
    InProcess,
    /// A file at a path.
    Path(String),
    /// A network destination, `host:port`, still to be parsed.
    Address(String),
    /// A spill write-ahead log and its byte cap.
    SpillWal { path: String, wal_limit_bytes: u64 },
}

/// A target with its text as character sequences.
pub enum TargetView {
    InProcess,
    Path(Seq<char>),
    Address(Seq<char>),
    SpillWal(Seq<char>, u64),
}

pub open spec fn target_view(t: SinkTarget) -> TargetView {
    match t {
        SinkTarget::InProcess => TargetView::InProcess,
        SinkTarget::Path(p) => TargetView::Path(p@),
        SinkTarget::Address(a) => TargetView::Address(a@),
        SinkTarget::SpillWal { path, wal_limit_bytes } => TargetView::SpillWal(path@, wal_limit_bytes),
    }
}

/// One sink worker to start.
#[derive(Debug, Clone, PartialEq, Eq)]
pub struct SinkPlan {
    pub id: String,
    pub kind: SinkKind,
    pub kind_label: &'static str,
    pub required: bool,
    pub capacity: usize,
    pub policy: OverflowPolicy,
    pub target: SinkTarget,
}

pub open spec fn kind_label_spec(k: SinkKind) -> Seq<char> {
    match k {
        SinkKind::Memory => "memory"@,
        SinkKind::Logging => "logging"@,
        SinkKind::File => "file"@,
        SinkKind::ProtobufFile => "protobuf-file"@,
        SinkKind::ProtobufFileBin => "protobuf-file-bin"@,
        SinkKind::Udp => "udp"@,
        SinkKind::SpillWal => "spill-wal"@,
        SinkKind::Kafka => "kafka"@,
        SinkKind::Nats => "nats"@,
    }
}

pub fn kind_label(k: SinkKind) -> (s: &'static str)
    ensures
        s@ == kind_label_spec(k),
{
    proof {
        reveal_strlit("memory");
        reveal_strlit("logging");
        reveal_strlit("file");
        reveal_strlit("protobuf-file");
        reveal_strlit("protobuf-file-bin");
        reveal_strlit("udp");
        reveal_strlit("spill-wal");
        reveal_strlit("kafka");
        reveal_strlit("nats");
    }
    match k {
        SinkKind::Memory => "memory",
        SinkKind::Logging => "logging",
        SinkKind::File => "file",
        SinkKind::ProtobufFile => "protobuf-file",
        SinkKind::ProtobufFileBin => "protobuf-file-bin",
        SinkKind::Udp => "udp",
        SinkKind::SpillWal => "spill-wal",
        SinkKind::Kafka => "kafka",
        SinkKind::Nats => "nats",
    }
}

/// How a configuration error reads once turned into text.
pub open spec fn validation_text(m: Seq<char>) -> Seq<char> {
    "validation: "@ + m
}

/// The id of the `index`th sink: its own, or `<type>-<index>`.
pub open spec fn sink_id_spec(sink: SinkConfig, index: usize) -> Seq<char> {
    match sink.id {
        Some(id) => id@,
        None => sink.sink_type@ + "-"@ + decimal(index as nat),
    }
}

/// Why this build cannot start a Kafka sink.
pub open spec fn kafka_unavailable() -> Seq<char> {
    "sink type=kafka requires marketfeed-daemon feature `kafka` (TCP Produce v0)"@
}

/// Why this build cannot start a NATS sink.
pub open spec fn nats_unavailable() -> Seq<char> {
    "sink type=nats requires marketfeed-daemon feature `nats` (TCP PUB)"@
}

/// What the `index`th `[[sinks]]` entry asks to be opened: its id, kind, policy and
/// target, checked in this order: the overflow policy, the type, then what the type
/// needs (a path, an address, a path and a WAL cap). A spill WAL always fails closed.
/// Kafka and NATS sinks are not part of this build.
pub open spec fn plan_spec(sink: SinkConfig, index: usize) -> Result<(Seq<char>, SinkKind, OverflowPolicy, TargetView), Seq<char>> {
    match sink.overflow_policy_spec() {
        Err(m) => Err(validation_text(m)),
        Ok(policy) => {
            let id = sink_id_spec(sink, index);
            match sink.kind_spec() {
                Err(m) => Err(validation_text(m)),
                Ok(kind) => match kind {
                    SinkKind::Memory | SinkKind::Logging => Ok((id, kind, policy, TargetView::InProcess)),
                    SinkKind::File | SinkKind::ProtobufFile | SinkKind::ProtobufFileBin => match sink.file_path_spec() {
                        Err(m) => Err(validation_text(m)),
                        Ok(p) => Ok((id, kind, policy, TargetView::Path(p))),
                    },
                    SinkKind::Udp => match sink.address_spec() {
                        Err(m) => Err(validation_text(m)),
                        Ok(a) => Ok((id, kind, policy, TargetView::Address(a))),
                    },
                    SinkKind::SpillWal => match sink.file_path_spec() {
                        Err(m) => Err(validation_text(m)),
                        Ok(p) => match sink.wal_limit_spec() {
                            Err(m) => Err(validation_text(m)),
                            Ok(n) => Ok((id, kind, OverflowPolicy::FailEngine, TargetView::SpillWal(p, n))),
                        },
                    },
                    SinkKind::Kafka => Err(kafka_unavailable()),
                    SinkKind::Nats => Err(nats_unavailable()),
                },
            }
        },
    }
}

fn error_text(e: ConfigError) -> (s: String)
    ensures
        e matches ConfigError::Validation(m) ==> s@ == validation_text(m@),
{
    e.message()
}

/// Plans the worker of the `index`th `[[sinks]]` entry (see `plan_spec`).
pub fn plan_sink(sink: &SinkConfig, index: usize) -> (r: Result<SinkPlan, String>)
    ensures
        match plan_spec(*sink, index) {
            Ok((id, kind, policy, target)) => r matches Ok(p) && {
                &&& p.id@ == id
                &&& p.kind == kind
                &&& p.kind_label@ == kind_label_spec(kind)
                &&& p.required == sink.required
                &&& p.capacity == sink.capacity
                &&& p.policy == policy
                &&& target_view(p.target) == target
            },
            Err(m) => r matches Err(e) && e@ == m,
        },
{
    let policy = match sink.overflow_policy() {
        Ok(p) => p,
        Err(e) => return Err(error_text(e)),
    };
    let id = match &sink.id {
        Some(id) => id.clone(),
        None => {
            let mut s = sink.sink_type.clone();
            s.append("-");
            let n = decimal_string(index as u128);
            s.append(n.as_str());
            proof {
                reveal_strlit("-");
            }
            s
        },
    };
    let kind = match sink.kind() {
        Ok(k) => k,
        Err(e) => return Err(error_text(e)),
    };
    let target = match kind {
        SinkKind::Memory | SinkKind::Logging => SinkTarget::InProcess,
        SinkKind::File | SinkKind::ProtobufFile | SinkKind::ProtobufFileBin => match sink.file_path() {
            Ok(p) => SinkTarget::Path(String::from_str(p)),
            Err(e) => return Err(error_text(e)),
        },
        SinkKind::Udp => match sink.address_text() {
            Ok(a) => SinkTarget::Address(String::from_str(a)),
            Err(e) => return Err(error_text(e)),
        },
        SinkKind::SpillWal => {
            let path = match sink.file_path() {
                Ok(p) => String::from_str(p),
                Err(e) => return Err(error_text(e)),
            };
            let wal_limit_bytes = match sink.wal_limit_bytes() {
                Ok(n) => n,
                Err(e) => return Err(error_text(e)),
            };
            SinkTarget::SpillWal { path, wal_limit_bytes }
        },
        SinkKind::Kafka => {
            proof {
                reveal_strlit("sink type=kafka requires marketfeed-daemon feature `kafka` (TCP Produce v0)");
            }
            return Err(String::from_str("sink type=kafka requires marketfeed-daemon feature `kafka` (TCP Produce v0)"));
        },
        SinkKind::Nats => {
            proof {
                reveal_strlit("sink type=nats requires marketfeed-daemon feature `nats` (TCP PUB)");
            }
            return Err(String::from_str("sink type=nats requires marketfeed-daemon feature `nats` (TCP PUB)"));
        },
    };
    let policy = if kind == SinkKind::SpillWal { OverflowPolicy::FailEngine } else { policy };
    Ok(SinkPlan {
        id,
        kind,
        kind_label: kind_label(kind),
        required: sink.required,
        capacity: sink.capacity,
        policy,
        target,
    })
}

/// Why startup stops when a spill WAL still holds records nobody acknowledged.
pub open spec fn spill_recovery_text(path: Seq<char>, recovered: usize) -> Seq<char> {
    "spill-wal sink "@ + path + " contains "@ + decimal(recovered as nat)
        + " unacknowledged recovery record(s); daemon startup is fail-closed until an explicit recovery consumer processes SpillWalSink::pop_recovered and checkpoints the prefix"@
}

/// A spill WAL opened with recovered records stops startup.
pub fn spill_recovery_check(path: &str, recovered: usize) -> (r: Result<(), String>)
    ensures
        recovered == 0 ==> r is Ok,
        recovered != 0 ==> (r matches Err(e) && e@ == spill_recovery_text(path@, recovered)),
{
    if recovered == 0 {
        return Ok(());
    }
    proof {
        reveal_strlit("spill-wal sink ");
        reveal_strlit(" contains ");
        reveal_strlit(" unacknowledged recovery record(s); daemon startup is fail-closed until an explicit recovery consumer processes SpillWalSink::pop_recovered and checkpoints the prefix");
    }
    let mut s = String::from_str("spill-wal sink ");
    s.append(path);
    s.append(" contains ");
    let n = decimal_string(recovered as u128);
    s.append(n.as_str());
    s.append(" unacknowledged recovery record(s); daemon startup is fail-closed until an explicit recovery consumer processes SpillWalSink::pop_recovered and checkpoints the prefix");
    Err(s)
}

// ---------------------------------------------------------------------------
// Worker health.

/// `a + b` modulo 2^64, as an atomic counter adds.
pub open spec fn wrapping(a: u64, b: u64) -> u64 {
    if a + b > u64::MAX {
        (a + b - 0x1_0000_0000_0000_0000) as u64
    } else {
        (a + b) as u64
    }
}

fn wrapping_add(a: u64, b: u64) -> (r: u64)
    ensures
        r == wrapping(a, b),
{
    if a > u64::MAX - b {
        b - (u64::MAX - a) - 1
    } else {
        a + b
    }
}

/// A sink worker's health and counters.
#[derive(Debug, Clone, PartialEq, Eq)]
pub struct SinkHealth {
    pub healthy: bool,
    pub enqueued: u64,
    pub dropped: u64,
    pub errors: u64,
    pub last_error: Option<String>,
}

impl SinkHealth {
    /// A worker that has started: healthy, nothing counted.
    pub fn started() -> (h: Self)
        ensures
            h.healthy,
            h.enqueued == 0 && h.dropped == 0 && h.errors == 0,
            h.last_error is None,
    {
        SinkHealth { healthy: true, enqueued: 0, dropped: 0, errors: 0, last_error: None }
    }

    /// Books one enqueue into the worker's mailbox.
    pub fn book_enqueue(&mut self, a: &EnqueueAccounting)
        ensures
            final(self).enqueued == wrapping(old(self).enqueued, a.enqueued),
            final(self).dropped == wrapping(old(self).dropped, a.dropped),
            final(self).healthy == old(self).healthy,
            final(self).errors == old(self).errors,
            final(self).last_error == old(self).last_error,
    {
        self.enqueued = wrapping_add(self.enqueued, a.enqueued);
        self.dropped = wrapping_add(self.dropped, a.dropped);
    }

    /// Books what the sink did with an item it accepted or dropped.
    pub fn book_delivery(&mut self, outcome: PushOutcome)
        ensures
            final(self).dropped == wrapping(old(self).dropped, match outcome {
                PushOutcome::Accepted => 0u64,
                PushOutcome::DroppedNewest => 1u64,
                PushOutcome::DroppedOldest { dropped } => dropped as u64,
            }),
            final(self).enqueued == old(self).enqueued,
            final(self).healthy == old(self).healthy,
            final(self).errors == old(self).errors,
            final(self).last_error == old(self).last_error,
    {
        match outcome {
            PushOutcome::Accepted => {},
            PushOutcome::DroppedNewest => self.dropped = wrapping_add(self.dropped, 1),
            PushOutcome::DroppedOldest { dropped } => self.dropped = wrapping_add(self.dropped, dropped as u64),
        }
    }

    /// Books a sink failure: the worker turns unhealthy, keeps the error, and counts the
    /// failed item and the `discarded` backlog as dropped. The worker then stops.
    pub fn book_failure(&mut self, message: String, discarded: usize)
        ensures
            !final(self).healthy,
            final(self).errors == wrapping(old(self).errors, 1),
            opt_view(final(self).last_error) == Some(message@),
            final(self).dropped == wrapping(old(self).dropped, wrapping(discarded as u64, 1)),
            final(self).enqueued == old(self).enqueued,
    {
        self.last_error = Some(message);
        self.errors = wrapping_add(self.errors, 1);
        self.healthy = false;
        self.dropped = wrapping_add(self.dropped, wrapping_add(discarded as u64, 1));
    }

    /// The worker's snapshot, with its mailbox's occupancy.
    pub fn snapshot(
        &self,
        id: &str,
        kind: &'static str,
        required: bool,
        queue_len: usize,
        queue_capacity: usize,
        in_flight: u64,
    ) -> (s: SinkSnapshot)
        ensures
            s.id@ == id@,
            s.kind == kind,
            s.required == required,
            s.healthy == self.healthy,
            s.queue_len == queue_len,
            s.queue_capacity == queue_capacity,
            s.in_flight == in_flight,
            s.enqueued == self.enqueued,
            s.dropped == self.dropped,
            s.errors == self.errors,
            opt_view(s.last_error) == opt_view(self.last_error),
    {
        SinkSnapshot {
            id: String::from_str(id),
            kind,
            required,
            healthy: self.healthy,
            queue_len,
            queue_capacity,
            in_flight,
            enqueued: self.enqueued,
            dropped: self.dropped,
            errors: self.errors,
            last_error: match &self.last_error {
                Some(e) => Some(e.clone()),
                None => None,
            },
        }
    }
}

// ---------------------------------------------------------------------------
// Draining at shutdown.

/// Where a worker's drain stands.
#[derive(Debug, Clone, PartialEq, Eq)]
pub enum DrainCheck {
    /// Nothing queued and nothing in flight.
    Drained,
    /// The drain cannot end well.
    Failed(String),
    /// Still draining: look again shortly.
    Waiting,
}

pub open spec fn unhealthy_text(s: SinkSnapshot) -> Seq<char> {
    "required sink "@ + s.id@ + " ("@ + s.kind@ + ") unhealthy during shutdown: "@ + match s.last_error {
        Some(e) => e@,
        None => "unknown error"@,
    }
}

pub open spec fn deadline_text(s: SinkSnapshot) -> Seq<char> {
    "sink "@ + s.id@ + " drain deadline exceeded (queue:in_flight="@ + decimal(s.queue_len as nat) + ":"@
        + decimal(s.in_flight as nat) + ")"@
}

/// One look at a draining worker: a required sink that turned unhealthy fails the
/// drain; an empty mailbox with nothing in flight ends it; past the deadline it fails;
/// otherwise it goes on.
pub fn drain_check(s: &SinkSnapshot, deadline_reached: bool) -> (r: DrainCheck)
    ensures
        s.required && !s.healthy ==> (r matches DrainCheck::Failed(m) && m@ == unhealthy_text(*s)),
        !(s.required && !s.healthy) && s.queue_len == 0 && s.in_flight == 0 ==> r == DrainCheck::Drained,
        !(s.required && !s.healthy) && !(s.queue_len == 0 && s.in_flight == 0) && deadline_reached
            ==> (r matches DrainCheck::Failed(m) && m@ == deadline_text(*s)),
        !(s.required && !s.healthy) && !(s.queue_len == 0 && s.in_flight == 0) && !deadline_reached
            ==> r == DrainCheck::Waiting,
{
    if s.required && !s.healthy {
        proof {
            reveal_strlit("required sink ");
            reveal_strlit(" (");
            reveal_strlit(") unhealthy during shutdown: ");
            reveal_strlit("unknown error");
        }
        let mut m = String::from_str("required sink ");
        m.append(s.id.as_str());
        m.append(" (");
        m.append(s.kind);
        m.append(") unhealthy during shutdown: ");
        match &s.last_error {
            Some(e) => m.append(e.as_str()),
            None => m.append("unknown error"),
        }
        return DrainCheck::Failed(m);
    }
    if s.queue_len == 0 && s.in_flight == 0 {
        return DrainCheck::Drained;
    }
    if deadline_reached {
        proof {
            reveal_strlit("sink ");
            reveal_strlit(" drain deadline exceeded (queue:in_flight=");
            reveal_strlit(":");
            reveal_strlit(")");
        }
        let mut m = String::from_str("sink ");
        m.append(s.id.as_str());
        m.append(" drain deadline exceeded (queue:in_flight=");
        let q = decimal_string(s.queue_len as u128);
        m.append(q.as_str());
        m.append(":");
        let f = decimal_string(s.in_flight as u128);
        m.append(f.as_str());
        m.append(")");
        return DrainCheck::Failed(m);
    }
    DrainCheck::Waiting
}

/// The text of the errors of several workers' shutdowns, joined by `; `.
pub open spec fn joined(errors: Seq<Seq<char>>) -> Seq<char>
    decreases errors.len(),
{
    if errors.len() == 0 {
        Seq::empty()
    } else if errors.len() == 1 {
        errors[0]
    } else {
        joined(errors.drop_last()) + "; "@ + errors.last()
    }
}

/// Shutting all workers down succeeds when none failed; otherwise it fails with every
/// error, in order.
pub fn shutdown_result(errors: &Vec<String>) -> (r: Result<(), String>)
    ensures
        errors@.len() == 0 ==> r is Ok,
        errors@.len() > 0 ==> (r matches Err(e) && e@ == joined(errors@.map_values(|s: String| s@))),
{
    if errors.len() == 0 {
        return Ok(());
    }
    proof {
        reveal_strlit("; ");
    }
    let ghost v = errors@.map_values(|s: String| s@);
    let mut out = errors[0].clone();
    let mut i: usize = 1;
    assert(v.take(1).drop_last() =~= Seq::<Seq<char>>::empty());
    while i < errors.len()
        invariant
            1 <= i <= errors@.len(),
            v == errors@.map_values(|s: String| s@),
            out@ == joined(v.take(i as int)),
        decreases errors.len() - i,
    {
        out.append("; ");
        out.append(errors[i].as_str());
        i += 1;
        assert(v.take(i as int).drop_last() =~= v.take(i - 1));
    }
    assert(v.take(errors@.len() as int) =~= v);
    Err(out)
}

} // verus!
