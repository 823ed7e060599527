//! One `[[sinks]]` entry: its kind and the per-kind settings it must carry.

use vstd::prelude::*;

use crate::config::{bytes_spec, daemon_overflow_policy, daemon_overflow_spec, is_validation, parse_bytes, ConfigError};
use crate::queue::OverflowPolicy;
use crate::text::{chars_are, concat2, concat3, debug_quoted, debug_text, is_blank, lower, lower_chars, string_of, trim, trim_str};

verus! {

/// One `[[sinks]]` entry: bounded `memory` / `logging` / `file` / `protobuf-file` /
/// `protobuf-file-bin` / `udp` / `spill-wal` / `kafka` / `nats`.
#[derive(Clone)]
pub struct SinkConfig {
    /// Optional label (diagnostics only).
    pub id: Option<String>,
    /// When true, readiness fails after this sink worker becomes unhealthy.
    pub required: bool,
    pub sink_type: String,
    /// Required for `file` / `protobuf-file` / `protobuf-file-bin` / `spill-wal`.
    pub path: Option<String>,
    /// Required for `udp` / `kafka` / `nats`: `host:port`.
    pub address: Option<String>,
    /// Required for `kafka`: the topic to produce to.
    pub topic: Option<String>,
    /// Required for `nats`: the subject to publish to.
    pub subject: Option<String>,
    pub capacity: usize,
    pub overflow: String,
    /// Required for `spill-wal`: hard WAL byte cap (e.g. `"64MiB"`).
    pub wal_limit: Option<String>,
}

#[derive(Debug, Clone, Copy, PartialEq, Eq, Structural)]
pub enum SinkKind {
    Memory,
    Logging,
    File,
    ProtobufFile,
    ProtobufFileBin,
    Udp,
    Kafka,
    Nats,
    SpillWal,
}

/// A present, non-blank setting, trimmed.
pub open spec fn given(o: Option<String>) -> Option<Seq<char>> {
    match o {
        Some(s) => if trim(s@).len() == 0 { None } else { Some(trim(s@)) },
        None => None,
    }
}

impl SinkConfig {
    /// How diagnostics name the sink: `sinks[<id>]`, or `sinks[type=<type>]` without an id.
    pub open spec fn label(&self) -> Seq<char> {
        match self.id {
            Some(id) => "sinks["@ + id@ + "]"@,
            None => "sinks[type="@ + self.sink_type@ + "]"@,
        }
    }

    pub open spec fn kind_spec(&self) -> Result<SinkKind, Seq<char>> {
        let t = lower(trim(self.sink_type@));
        if t == "memory"@ {
            Ok(SinkKind::Memory)
        } else if t == "logging"@ {
            Ok(SinkKind::Logging)
        } else if t == "file"@ {
            Ok(SinkKind::File)
        } else if t == "protobuf-file"@ {
            Ok(SinkKind::ProtobufFile)
        } else if t == "protobuf-file-bin"@ {
            Ok(SinkKind::ProtobufFileBin)
        } else if t == "udp"@ {
            Ok(SinkKind::Udp)
        } else if t == "kafka"@ {
            Ok(SinkKind::Kafka)
        } else if t == "nats"@ {
            Ok(SinkKind::Nats)
        } else if t == "spill-wal"@ || t == "spill_wal"@ {
            Ok(SinkKind::SpillWal)
        } else {
            Err("unknown sink type "@ + debug_text(t)
                + " (memory|logging|file|protobuf-file|protobuf-file-bin|udp|spill-wal|kafka|nats)"@)
        }
    }

    pub open spec fn overflow_policy_spec(&self) -> Result<OverflowPolicy, Seq<char>> {
        daemon_overflow_spec(self.label() + ".overflow"@, self.overflow@)
    }

    pub open spec fn file_path_spec(&self) -> Result<Seq<char>, Seq<char>> {
        match given(self.path) {
            Some(p) => Ok(p),
            None => Err(self.label() + ".path required for type=file|protobuf-file|protobuf-file-bin|spill-wal"@),
        }
    }

    pub open spec fn wal_limit_spec(&self) -> Result<u64, Seq<char>> {
        match given(self.wal_limit) {
            None => Err(self.label() + ".wal_limit required for type=spill-wal"@),
            Some(raw) => match bytes_spec(raw) {
                Err(e) => Err(self.label() + ".wal_limit: "@ + e),
                Ok(n) => if n == 0 { Err(self.label() + ".wal_limit must be > 0"@) } else { Ok(n) },
            },
        }
    }

    /// The trimmed destination address, or why it is missing.
    pub open spec fn address_spec(&self) -> Result<Seq<char>, Seq<char>> {
        match given(self.address) {
            Some(a) => Ok(a),
            None => Err(self.label() + ".address required for type=udp|kafka|nats"@),
        }
    }

    pub open spec fn kafka_topic_spec(&self) -> Result<Seq<char>, Seq<char>> {
        match given(self.topic) {
            Some(t) => Ok(t),
            None => Err(self.label() + ".topic required for type=kafka"@),
        }
    }

    pub open spec fn nats_subject_spec(&self) -> Result<Seq<char>, Seq<char>> {
        match given(self.subject) {
            Some(s) => Ok(s),
            None => Err(self.label() + ".subject required for type=nats"@),
        }
    }

    /// The diagnostic label of this sink.
    pub fn label_text(&self) -> (s: String)
        ensures
            s@ == self.label(),
    {
        match &self.id {
            Some(id) => concat3("sinks[", id.as_str(), "]"),
            None => concat3("sinks[type=", self.sink_type.as_str(), "]"),
        }
    }

    pub fn overflow_policy(&self) -> (r: Result<OverflowPolicy, ConfigError>)
        ensures
            match self.overflow_policy_spec() {
                Ok(p) => r == Ok::<OverflowPolicy, ConfigError>(p),
                Err(m) => r matches Err(e) && is_validation(e, m),
            },
    {
        let label = self.label_text();
        let full = concat2(label.as_str(), ".overflow");
        daemon_overflow_policy(full.as_str(), self.overflow.as_str())
    }

    pub fn kind(&self) -> (r: Result<SinkKind, ConfigError>)
        ensures
            match self.kind_spec() {
                Ok(k) => r == Ok::<SinkKind, ConfigError>(k),
                Err(m) => r matches Err(e) && is_validation(e, m),
            },
    {
        let t = trim_str(self.sink_type.as_str());
        let l = lower_chars(t);
        if chars_are(&l, "memory") {
            Ok(SinkKind::Memory)
        } else if chars_are(&l, "logging") {
            Ok(SinkKind::Logging)
        } else if chars_are(&l, "file") {
            Ok(SinkKind::File)
        } else if chars_are(&l, "protobuf-file") {
            Ok(SinkKind::ProtobufFile)
        } else if chars_are(&l, "protobuf-file-bin") {
            Ok(SinkKind::ProtobufFileBin)
        } else if chars_are(&l, "udp") {
            Ok(SinkKind::Udp)
        } else if chars_are(&l, "kafka") {
            Ok(SinkKind::Kafka)
        } else if chars_are(&l, "nats") {
            Ok(SinkKind::Nats)
        } else if chars_are(&l, "spill-wal") || chars_are(&l, "spill_wal") {
            Ok(SinkKind::SpillWal)
        } else {
            let shown = string_of(&l);
            let q = debug_quoted(shown.as_str());
            Err(ConfigError::Validation(concat3(
                "unknown sink type ",
                q.as_str(),
                " (memory|logging|file|protobuf-file|protobuf-file-bin|udp|spill-wal|kafka|nats)",
            )))
        }
    }

    /// Append path for `file` / `protobuf-file` / `protobuf-file-bin` / `spill-wal`.
    pub fn file_path(&self) -> (r: Result<&str, ConfigError>)
        ensures
            match self.file_path_spec() {
                Ok(p) => r matches Ok(s) && s@ == p,
                Err(m) => r matches Err(e) && is_validation(e, m),
            },
    {
        if let Some(p) = &self.path {
            if !is_blank(p.as_str()) {
                return Ok(trim_str(p.as_str()));
            }
        }
        let label = self.label_text();
        Err(ConfigError::Validation(concat2(
            label.as_str(),
            ".path required for type=file|protobuf-file|protobuf-file-bin|spill-wal",
        )))
    }

    /// WAL byte limit for `spill-wal`.
    pub fn wal_limit_bytes(&self) -> (r: Result<u64, ConfigError>)
        ensures
            match self.wal_limit_spec() {
                Ok(n) => r == Ok::<u64, ConfigError>(n),
                Err(m) => r matches Err(e) && is_validation(e, m),
            },
    {
        let label = self.label_text();
        let raw = match &self.wal_limit {
            Some(w) => {
                if is_blank(w.as_str()) {
                    return Err(ConfigError::Validation(concat2(label.as_str(), ".wal_limit required for type=spill-wal")));
                }
                trim_str(w.as_str())
            },
            None => {
                return Err(ConfigError::Validation(concat2(label.as_str(), ".wal_limit required for type=spill-wal")));
            },
        };
        match parse_bytes(raw) {
            Err(e) => Err(ConfigError::Validation(concat3(label.as_str(), ".wal_limit: ", e.as_str()))),
            Ok(bytes) => {
                if bytes == 0 {
                    Err(ConfigError::Validation(concat2(label.as_str(), ".wal_limit must be > 0")))
                } else {
                    Ok(bytes)
                }
            },
        }
    }

    /// The trimmed destination address for `udp` / `kafka` / `nats`; turning it into a
    /// socket address is up to the caller.
    pub fn address_text(&self) -> (r: Result<&str, ConfigError>)
        ensures
            match self.address_spec() {
                Ok(a) => r matches Ok(s) && s@ == a,
                Err(m) => r matches Err(e) && is_validation(e, m),
            },
    {
        if let Some(a) = &self.address {
            if !is_blank(a.as_str()) {
                return Ok(trim_str(a.as_str()));
            }
        }
        let label = self.label_text();
        Err(ConfigError::Validation(concat2(label.as_str(), ".address required for type=udp|kafka|nats")))
    }

    /// Kafka topic (`kafka`).
    pub fn kafka_topic(&self) -> (r: Result<&str, ConfigError>)
        ensures
            match self.kafka_topic_spec() {
                Ok(t) => r matches Ok(s) && s@ == t,
                Err(m) => r matches Err(e) && is_validation(e, m),
            },
    {
        if let Some(t) = &self.topic {
            if !is_blank(t.as_str()) {
                return Ok(trim_str(t.as_str()));
            }
        }
        let label = self.label_text();
        Err(ConfigError::Validation(concat2(label.as_str(), ".topic required for type=kafka")))
    }

    /// NATS subject (`nats`).
    pub fn nats_subject(&self) -> (r: Result<&str, ConfigError>)
        ensures
            match self.nats_subject_spec() {
                Ok(t) => r matches Ok(s) && s@ == t,
                Err(m) => r matches Err(e) && is_validation(e, m),
            },
    {
        if let Some(t) = &self.subject {
            if !is_blank(t.as_str()) {
                return Ok(trim_str(t.as_str()));
            }
        }
        let label = self.label_text();
        Err(ConfigError::Validation(concat2(label.as_str(), ".subject required for type=nats")))
    }
}

/// The sink types are exactly these names, read without surrounding whitespace and in
/// any ASCII case: `memory`, `logging`, `file`, `protobuf-file`, `protobuf-file-bin`,
/// `udp`, `kafka`, `nats`, and `spill-wal` (also `spill_wal`); each names its own kind,
/// and any other name is refused.
pub proof fn lemma_sink_types_exactly(s: SinkConfig)
    ensures
        ({
            let t = lower(trim(s.sink_type@));
            &&& s.kind_spec() == Ok::<SinkKind, Seq<char>>(SinkKind::Memory) <==> t == "memory"@
            &&& s.kind_spec() == Ok::<SinkKind, Seq<char>>(SinkKind::Logging) <==> t == "logging"@
            &&& s.kind_spec() == Ok::<SinkKind, Seq<char>>(SinkKind::File) <==> t == "file"@
            &&& s.kind_spec() == Ok::<SinkKind, Seq<char>>(SinkKind::ProtobufFile) <==> t == "protobuf-file"@
            &&& s.kind_spec() == Ok::<SinkKind, Seq<char>>(SinkKind::ProtobufFileBin) <==> t == "protobuf-file-bin"@
            &&& s.kind_spec() == Ok::<SinkKind, Seq<char>>(SinkKind::Udp) <==> t == "udp"@
            &&& s.kind_spec() == Ok::<SinkKind, Seq<char>>(SinkKind::Kafka) <==> t == "kafka"@
            &&& s.kind_spec() == Ok::<SinkKind, Seq<char>>(SinkKind::Nats) <==> t == "nats"@
            &&& s.kind_spec() == Ok::<SinkKind, Seq<char>>(SinkKind::SpillWal) <==> (t == "spill-wal"@ || t == "spill_wal"@)
        }),
{
    reveal_strlit("memory");
    reveal_strlit("logging");
    reveal_strlit("file");
    reveal_strlit("protobuf-file");
    reveal_strlit("protobuf-file-bin");
    reveal_strlit("udp");
    reveal_strlit("kafka");
    reveal_strlit("nats");
    reveal_strlit("spill-wal");
    reveal_strlit("spill_wal");
    assert("memory"@.len() == 6 && "logging"@.len() == 7 && "file"@.len() == 4 && "protobuf-file"@.len() == 13);
    assert("protobuf-file-bin"@.len() == 17 && "udp"@.len() == 3 && "kafka"@.len() == 5 && "nats"@.len() == 4);
    assert("spill-wal"@.len() == 9 && "spill_wal"@.len() == 9);
    assert("file"@[0] != "nats"@[0]);
}

} // verus!
