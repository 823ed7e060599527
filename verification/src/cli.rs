//! Command-line helpers: flag lookup, the `plan` and stub `catalog` reports, and the
//! supervisor's message for a failed required sink.

use vstd::prelude::*;

use crate::config::DaemonConfig;
use crate::mailbox::SinkSnapshot;
use crate::text::{debug_quoted, debug_text, decimal, decimal_string, parse_u32, parse_u32_str, str_eq};
use crate::venue_config::{opt_debug, opt_text, venue_meta, venue_meta_spec, InstrumentKind, VenueConfig};

verus! {

broadcast use vstd::string::group_string_axioms;

/// The first index at or after `i` where `args` holds `name`.
pub open spec fn flag_index(args: Seq<String>, name: Seq<char>, i: nat) -> Option<nat>
    decreases args.len() - i,
{
    if i >= args.len() {
        None
    } else if args[i as int]@ == name {
        Some(i)
    } else {
        flag_index(args, name, i + 1)
    }
}

/// The value after the first occurrence of flag `name`, if the flag occurs and a value
/// follows it.
pub open spec fn flag_value(args: Seq<String>, name: Seq<char>) -> Option<Seq<char>> {
    match flag_index(args, name, 0) {
        Some(i) => if i + 1 < args.len() {
            Some(args[(i + 1) as int]@)
        } else {
            None
        },
        None => None,
    }
}

pub fn parse_flag_str(args: &Vec<String>, name: &str) -> (r: Option<String>)
    ensures
        crate::config::opt_view(r) == flag_value(args@, name@),
{
    let mut i: usize = 0;
    while i < args.len()
        invariant
            i <= args.len(),
            flag_index(args@, name@, 0) == flag_index(args@, name@, i as nat),
        decreases args.len() - i,
    {
        if str_eq(args[i].as_str(), name) {
            if i + 1 < args.len() {
                return Some(args[i + 1].clone());
            } else {
                return None;
            }
        }
        i += 1;
    }
    None
}

/// `--iterations`: its value when it is a `u32`, else 1000.
pub open spec fn iterations_spec(args: Seq<String>) -> u32 {
    match flag_value(args, "--iterations"@) {
        Some(v) => match parse_u32(v) {
            Some(n) => n,
            None => 1000,
        },
        None => 1000,
    }
}

pub fn parse_iterations(args: &Vec<String>) -> (n: u32)
    ensures
        n == iterations_spec(args@),
{
    match parse_flag_str(args, "--iterations") {
        Some(s) => match parse_u32_str(s.as_str()) {
            Some(n) => n,
            None => 1000,
        },
        None => 1000,
    }
}

// ---------------------------------------------------------------------------
// The `plan` report.

/// The lines of one venue in the plan report: a header with its session count, then one
/// line per session.
pub open spec fn venue_plan_text(id: Seq<char>, adapter: Seq<char>, lines: Seq<String>) -> Seq<char> {
    "venue="@ + id + " adapter="@ + adapter + " sessions="@ + decimal(lines.len()) + "\n"@
        + sessions_text(lines, lines.len())
}

/// `  session[i] line` for the first `n` session lines.
pub open spec fn sessions_text(lines: Seq<String>, n: nat) -> Seq<char>
    decreases n,
{
    if n == 0 || n > lines.len() {
        seq![]
    } else {
        sessions_text(lines, (n - 1) as nat) + "  session["@ + decimal((n - 1) as nat) + "] "@
            + lines[n - 1]@ + "\n"@
    }
}

/// The plan report over the first `n` venues.
pub open spec fn plan_text(venues: Seq<crate::venue_config::VenueConfig>, plans: Seq<Vec<String>>, n: nat) -> Seq<char>
    decreases n,
{
    if n == 0 || n > venues.len() {
        "venues="@ + decimal(venues.len()) + "\n"@
    } else {
        plan_text(venues, plans, (n - 1) as nat) + venue_plan_text(
            venues[n - 1].id@,
            venues[n - 1].adapter@,
            plans[n - 1]@,
        )
    }
}

fn append_decimal(s: &mut String, n: usize)
    ensures
        final(s)@ == old(s)@ + decimal(n as nat),
{
    let d = decimal_string(n as u128);
    s.append(d.as_str());
}

/// Appends one venue's lines of the plan report.
fn append_venue_plan(out: &mut String, venue: &VenueConfig, lines: &Vec<String>)
    ensures
        final(out)@ == old(out)@ + venue_plan_text(venue.id@, venue.adapter@, lines@),
{
    out.append("venue=");
    out.append(venue.id.as_str());
    out.append(" adapter=");
    out.append(venue.adapter.as_str());
    out.append(" sessions=");
    append_decimal(out, lines.len());
    out.append("\n");
    let ghost head = out@;
    let mut i: usize = 0;
    while i < lines.len()
        invariant
            i <= lines@.len(),
            out@ == head + sessions_text(lines@, i as nat),
        decreases lines.len() - i,
    {
        out.append("  session[");
        append_decimal(out, i);
        out.append("] ");
        out.append(lines[i].as_str());
        out.append("\n");
        i += 1;
        assert(out@ =~= head + sessions_text(lines@, i as nat));
    }
    proof {
        reveal_strlit("venue=");
        reveal_strlit(" adapter=");
        reveal_strlit(" sessions=");
        reveal_strlit("\n");
    }
    assert(out@ =~= old(out)@ + venue_plan_text(venue.id@, venue.adapter@, lines@));
}

/// Renders the plan report: the venue count, then for each venue its session lines (as
/// the venue's factory planned them, `plans[i]` for `cfg.venues[i]`).
pub fn render_plan(cfg: &DaemonConfig, plans: &Vec<Vec<String>>) -> (out: String)
    requires
        plans@.len() == cfg.venues@.len(),
    ensures
        out@ == plan_text(cfg.venues@, plans@, cfg.venues@.len()),
{
    let mut out = String::from_str("venues=");
    append_decimal(&mut out, cfg.venues.len());
    out.append("\n");
    let mut v: usize = 0;
    while v < cfg.venues.len()
        invariant
            plans@.len() == cfg.venues@.len(),
            v <= cfg.venues@.len(),
            out@ == plan_text(cfg.venues@, plans@, v as nat),
        decreases cfg.venues.len() - v,
    {
        append_venue_plan(&mut out, &cfg.venues[v], &plans[v]);
        v += 1;
        assert(out@ =~= plan_text(cfg.venues@, plans@, v as nat));
    }
    out
}

/// The error of the first venue at or after `i` whose planning failed.
pub open spec fn first_plan_error(plans: Seq<Result<Vec<String>, String>>, i: nat) -> Option<Seq<char>>
    decreases plans.len() - i,
{
    if i >= plans.len() {
        None
    } else {
        match plans[i as int] {
            Err(e) => Some(e@),
            Ok(_) => first_plan_error(plans, i + 1),
        }
    }
}

/// The session lines of planned venues.
pub open spec fn ok_plans(plans: Seq<Result<Vec<String>, String>>) -> Seq<Vec<String>> {
    plans.map_values(|r: Result<Vec<String>, String>| r->Ok_0)
}

/// The plan report from each venue's planning outcome (`plans[i]` for `cfg.venues[i]`,
/// in order): the first venue's error when any planning failed, with no partial text;
/// otherwise the report `render_plan` gives.
pub fn format_plan(cfg: &DaemonConfig, plans: &Vec<Result<Vec<String>, String>>) -> (r: Result<String, String>)
    requires
        plans@.len() == cfg.venues@.len(),
    ensures
        match first_plan_error(plans@, 0) {
            Some(e) => r matches Err(x) && x@ == e,
            None => r matches Ok(out) && out@ == plan_text(cfg.venues@, ok_plans(plans@), cfg.venues@.len()),
        },
{
    let mut k: usize = 0;
    while k < plans.len()
        invariant
            k <= plans@.len(),
            first_plan_error(plans@, 0) == first_plan_error(plans@, k as nat),
        decreases plans.len() - k,
    {
        if let Err(e) = &plans[k] {
            return Err(e.clone());
        }
        k += 1;
    }
    proof {
        lemma_no_plan_error(plans@, 0);
    }
    let mut out = String::from_str("venues=");
    append_decimal(&mut out, cfg.venues.len());
    out.append("\n");
    let ghost oks = ok_plans(plans@);
    let mut v: usize = 0;
    while v < cfg.venues.len()
        invariant
            plans@.len() == cfg.venues@.len(),
            v <= cfg.venues@.len(),
            oks == ok_plans(plans@),
            first_plan_error(plans@, 0) is None,
            forall|j: int| 0 <= j < plans@.len() ==> plans@[j] is Ok,
            out@ == plan_text(cfg.venues@, oks, v as nat),
        decreases cfg.venues.len() - v,
    {
        match &plans[v] {
            Ok(lines) => {
                assert(lines@ == oks[v as int]@);
                append_venue_plan(&mut out, &cfg.venues[v], lines);
            },
            Err(_) => {
                assert(false);
            },
        }
        v += 1;
        assert(out@ =~= plan_text(cfg.venues@, oks, v as nat));
    }
    Ok(out)
}

proof fn lemma_no_plan_error(plans: Seq<Result<Vec<String>, String>>, i: nat)
    requires
        first_plan_error(plans, i) is None,
    ensures
        forall|j: int| i <= j < plans.len() ==> plans[j] is Ok,
    decreases plans.len() - i,
{
    if i < plans.len() {
        lemma_no_plan_error(plans, i + 1);
    }
}

// ---------------------------------------------------------------------------
// The `benchmark` report.

/// Whether `bytes` hold one JSON document.
pub uninterp spec fn json_document(bytes: Seq<u8>) -> bool;

/// `serde_json::from_slice::<serde_json::Value>`: whether the bytes parse as one JSON
/// document. The contract claims only that the answer is a function of the bytes.
#[verifier::external_body]
fn parses_as_json(bytes: &[u8]) -> (r: bool)
    ensures
        r == json_document(bytes@),
{
    serde_json::from_slice::<serde_json::Value>(bytes).is_ok()
}

/// The exclusive-or of all the bytes.
pub open spec fn xor_all(bytes: Seq<u8>) -> u8
    decreases bytes.len(),
{
    if bytes.len() == 0 {
        0
    } else {
        xor_all(bytes.drop_last()) ^ bytes.last()
    }
}

/// A raw scan of the bytes: their exclusive-or.
pub fn scan_bytes(bytes: &[u8]) -> (r: u8)
    ensures
        r == xor_all(bytes@),
{
    let mut acc: u8 = 0;
    let mut i: usize = 0;
    while i < bytes.len()
        invariant
            i <= bytes@.len(),
            acc == xor_all(bytes@.take(i as int)),
        decreases bytes.len() - i,
    {
        assert(bytes@.take(i + 1).drop_last() =~= bytes@.take(i as int));
        acc = acc ^ bytes[i];
        i += 1;
    }
    assert(bytes@.take(bytes@.len() as int) =~= bytes@);
    acc
}

/// The iterations a benchmark runs: the number asked for, at least one.
pub open spec fn benchmark_iterations(iterations: u32) -> u32 {
    if iterations == 0 {
        1
    } else {
        iterations
    }
}

/// Parses the fixture `benchmark_iterations(iterations)` times, scanning its raw bytes
/// each time it is not JSON; every pass counts as done. Returns (iterations, passes).
pub fn parse_repeatedly(bytes: &[u8], iterations: u32) -> (r: (u32, u32))
    ensures
        r.0 == benchmark_iterations(iterations),
        r.1 == r.0,
{
    let iters: u32 = if iterations == 0 { 1 } else { iterations };
    let mut ok: u32 = 0;
    let mut i: u32 = 0;
    while i < iters
        invariant
            i <= iters,
            ok == i,
        decreases iters - i,
    {
        if !parses_as_json(bytes) {
            let _ = scan_bytes(bytes);
        }
        ok += 1;
        i += 1;
    }
    (iters, ok)
}

/// The benchmark report line: the fixture, its size, the iterations and passes, the time
/// taken and the time per iteration (rounded down), all in nanoseconds.
pub open spec fn benchmark_text(fixture: Seq<char>, bytes_len: usize, iters: u32, ok: u32, elapsed_ns: u128) -> Seq<char> {
    "fixture="@ + fixture + " bytes="@ + decimal(bytes_len as nat) + " iterations="@ + decimal(iters as nat) + " ok="@
        + decimal(ok as nat) + " elapsed_ns="@ + decimal(elapsed_ns as nat) + " ns_per_iter="@ + decimal(
        (elapsed_ns / (iters as u128)) as nat,
    )
}

pub fn benchmark_line(fixture: &str, bytes_len: usize, iters: u32, ok: u32, elapsed_ns: u128) -> (s: String)
    requires
        iters > 0,
    ensures
        s@ == benchmark_text(fixture@, bytes_len, iters, ok, elapsed_ns),
{
    let mut s = String::from_str("fixture=");
    s.append(fixture);
    s.append(" bytes=");
    s.append(decimal_string(bytes_len as u128).as_str());
    s.append(" iterations=");
    s.append(decimal_string(iters as u128).as_str());
    s.append(" ok=");
    s.append(decimal_string(ok as u128).as_str());
    s.append(" elapsed_ns=");
    s.append(decimal_string(elapsed_ns).as_str());
    s.append(" ns_per_iter=");
    s.append(decimal_string(elapsed_ns / (iters as u128)).as_str());
    proof {
        reveal_strlit("fixture=");
        reveal_strlit(" bytes=");
        reveal_strlit(" iterations=");
        reveal_strlit(" ok=");
        reveal_strlit(" elapsed_ns=");
        reveal_strlit(" ns_per_iter=");
    }
    assert(s@ =~= benchmark_text(fixture@, bytes_len, iters, ok, elapsed_ns));
    s
}

// ---------------------------------------------------------------------------
// The stub catalog report.

/// How `{:?}` prints an instrument kind.
pub open spec fn kind_debug(k: InstrumentKind) -> Seq<char> {
    match k {
        InstrumentKind::Spot => "Spot"@,
        InstrumentKind::PerpetualLinear => "PerpetualLinear"@,
        InstrumentKind::PerpetualInverse => "PerpetualInverse"@,
        InstrumentKind::FutureLinear => "FutureLinear"@,
        InstrumentKind::FutureInverse => "FutureInverse"@,
    }
}

fn kind_debug_str(k: InstrumentKind) -> (s: &'static str)
    ensures
        s@ == kind_debug(k),
{
    proof {
        reveal_strlit("Spot");
        reveal_strlit("PerpetualLinear");
        reveal_strlit("PerpetualInverse");
        reveal_strlit("FutureLinear");
        reveal_strlit("FutureInverse");
    }
    match k {
        InstrumentKind::Spot => "Spot",
        InstrumentKind::PerpetualLinear => "PerpetualLinear",
        InstrumentKind::PerpetualInverse => "PerpetualInverse",
        InstrumentKind::FutureLinear => "FutureLinear",
        InstrumentKind::FutureInverse => "FutureInverse",
    }
}

/// One line per stub instrument, `syms[..n]`: ids count from 1, with the stub's price
/// scale 2 and quantity scale 8.
pub open spec fn stub_lines(syms: Seq<String>, kind: InstrumentKind, n: nat) -> Seq<char>
    decreases n,
{
    if n == 0 {
        seq![]
    } else {
        stub_lines(syms, kind, (n - 1) as nat) + "  id="@ + decimal(n) + " symbol="@ + syms[n - 1]@ + " kind="@
            + kind_debug(kind) + " price_scale=2 qty_scale=8\n"@
    }
}

/// The stub catalog report of a venue: a header naming the venue, its adapter, segment,
/// venue code, catalog version 1, its instrument count and the stub source, a hint when
/// it has no symbols, then one line per configured symbol.
pub open spec fn catalog_text(v: VenueConfig, code: Seq<char>, kind: InstrumentKind) -> Seq<char> {
    let n = v.symbols@.len();
    "venue_id="@ + v.id@ + " adapter="@ + v.adapter@ + " segment="@ + opt_text(v.segment) + " venue_code="@ + code
        + " catalog_version=1 instruments="@ + decimal(n) + " source=stub\n"@ + (if n == 0 {
        "(empty stub catalog — add symbols= in config)\n"@
    } else {
        ""@
    }) + stub_lines(v.symbols@, kind, n)
}

/// The first venue of `venues[i..]` with id `id`.
pub open spec fn venue_with_id(venues: Seq<VenueConfig>, id: Seq<char>, i: nat) -> Option<nat>
    decreases venues.len() - i,
{
    if i >= venues.len() {
        None
    } else if venues[i as int].id@ == id {
        Some(i)
    } else {
        venue_with_id(venues, id, i + 1)
    }
}

/// What `catalog` prints without `--live`: the stub catalog of the configured venue,
/// or why there is none.
pub open spec fn catalog_spec(cfg: DaemonConfig, id: Seq<char>) -> Result<Seq<char>, Seq<char>> {
    match venue_with_id(cfg.venues@, id, 0) {
        None => Err("venue id "@ + debug_text(id) + " not in config"@),
        Some(i) => {
            let v = cfg.venues@[i as int];
            match v.kind_spec() {
                Err(m) => Err("validation: "@ + m),
                Ok(k) => {
                    let (code, kind) = venue_meta_spec(k);
                    Ok(catalog_text(v, code, kind))
                },
            }
        },
    }
}

fn append_decimal_u(s: &mut String, n: usize)
    ensures
        final(s)@ == old(s)@ + decimal(n as nat),
{
    let d = decimal_string(n as u128);
    s.append(d.as_str());
}

fn find_venue(venues: &Vec<VenueConfig>, id: &str) -> (r: Option<usize>)
    ensures
        match r {
            Some(k) => k < venues@.len() && venue_with_id(venues@, id@, 0) == Some(k as nat),
            None => venue_with_id(venues@, id@, 0) is None,
        },
{
    let mut i: usize = 0;
    while i < venues.len()
        invariant
            i <= venues@.len(),
            venue_with_id(venues@, id@, 0) == venue_with_id(venues@, id@, i as nat),
        decreases venues.len() - i,
    {
        if str_eq(venues[i].id.as_str(), id) {
            return Some(i);
        }
        i += 1;
    }
    None
}

/// The stub catalog report of the venue with id `venue_id` (see `catalog_spec`).
pub fn format_catalog(cfg: &DaemonConfig, venue_id: &str) -> (r: Result<String, String>)
    requires
        forall|i: int| 0 <= i < cfg.venues@.len() ==> (#[trigger] cfg.venues@[i]).symbols@.len() < u32::MAX,
    ensures
        match catalog_spec(*cfg, venue_id@) {
            Ok(t) => r matches Ok(s) && s@ == t,
            Err(m) => r matches Err(e) && e@ == m,
        },
{
    let found = find_venue(&cfg.venues, venue_id);
    if found.is_none() {
        proof {
            reveal_strlit("venue id ");
            reveal_strlit(" not in config");
        }
        let mut m = String::from_str("venue id ");
        let q = debug_quoted(venue_id);
        m.append(q.as_str());
        m.append(" not in config");
        return Err(m);
    }
    let i = found.unwrap();
    let v = &cfg.venues[i];
    let kind = match v.resolved_kind() {
        Ok(k) => k,
        Err(e) => return Err(e.message()),
    };
    let (code, instrument_kind) = venue_meta(kind);
    proof {
        reveal_strlit("venue_id=");
        reveal_strlit(" adapter=");
        reveal_strlit(" segment=");
        reveal_strlit(" venue_code=");
        reveal_strlit(" catalog_version=1 instruments=");
        reveal_strlit(" source=stub\n");
        reveal_strlit("(empty stub catalog — add symbols= in config)\n");
        reveal_strlit("");
        reveal_strlit("  id=");
        reveal_strlit(" symbol=");
        reveal_strlit(" kind=");
        reveal_strlit(" price_scale=2 qty_scale=8\n");
    }
    let mut out = String::from_str("venue_id=");
    out.append(v.id.as_str());
    out.append(" adapter=");
    out.append(v.adapter.as_str());
    out.append(" segment=");
    let seg = opt_debug(&v.segment);
    out.append(seg.as_str());
    out.append(" venue_code=");
    out.append(code);
    out.append(" catalog_version=1 instruments=");
    append_decimal_u(&mut out, v.symbols.len());
    out.append(" source=stub\n");
    if v.symbols.len() == 0 {
        out.append("(empty stub catalog — add symbols= in config)\n");
    }
    let ghost head = out@;
    assert(cfg.venues@[i as int].symbols@.len() < u32::MAX);
    let kind_text = kind_debug_str(instrument_kind);
    let mut j: usize = 0;
    while j < v.symbols.len()
        invariant
            j <= v.symbols@.len(),
            kind_text@ == kind_debug(instrument_kind),
            out@ == head + stub_lines(v.symbols@, instrument_kind, j as nat),
        decreases v.symbols.len() - j,
    {
        out.append("  id=");
        append_decimal_u(&mut out, j + 1);
        out.append(" symbol=");
        out.append(v.symbols[j].as_str());
        out.append(" kind=");
        out.append(kind_text);
        out.append(" price_scale=2 qty_scale=8\n");
        j += 1;
        assert(out@ =~= head + stub_lines(v.symbols@, instrument_kind, j as nat));
    }
    assert(out@ =~= catalog_text(*v, code@, instrument_kind));
    Ok(out)
}

// ---------------------------------------------------------------------------
// Supervision.

/// The message the supervisor stops on when a required sink is unhealthy, for the first
/// such sink.
pub open spec fn failed_sink_text(s: SinkSnapshot) -> Seq<char> {
    "required sink "@ + s.id@ + " ("@ + s.kind@ + ") failed: "@ + match s.last_error {
        Some(e) => e@,
        None => "unknown error"@,
    }
}

/// The index of the first required, unhealthy sink in `snaps[i..]`.
pub open spec fn first_failed_required(snaps: Seq<SinkSnapshot>, i: nat) -> Option<nat>
    decreases snaps.len() - i,
{
    if i >= snaps.len() {
        None
    } else if snaps[i as int].required && !snaps[i as int].healthy {
        Some(i)
    } else {
        first_failed_required(snaps, i + 1)
    }
}

pub fn failed_required_sink(snapshots: &Vec<SinkSnapshot>) -> (r: Option<String>)
    ensures
        crate::config::opt_view(r) == match first_failed_required(snapshots@, 0) {
            Some(i) => Some(failed_sink_text(snapshots@[i as int])),
            None => None,
        },
{
    let mut i: usize = 0;
    while i < snapshots.len()
        invariant
            i <= snapshots.len(),
            first_failed_required(snapshots@, 0) == first_failed_required(snapshots@, i as nat),
        decreases snapshots.len() - i,
    {
        let s = &snapshots[i];
        if s.required && !s.healthy {
            let mut m = String::from_str("required sink ");
            m.append(s.id.as_str());
            m.append(" (");
            m.append(s.kind);
            m.append(") failed: ");
            match &s.last_error {
                Some(e) => m.append(e.as_str()),
                None => m.append("unknown error"),
            }
            return Some(m);
        }
        i += 1;
    }
    None
}

/// The failed required sink reported is the first one: a required, unhealthy sink with
/// every sink before it healthy or optional; none is reported only when every required
/// sink is healthy.
pub proof fn lemma_first_failed_required_sink_is_first(snaps: Seq<SinkSnapshot>, i: nat)
    ensures
        first_failed_required(snaps, i) matches Some(k) ==> {
            &&& i <= k < snaps.len()
            &&& snaps[k as int].required && !snaps[k as int].healthy
            &&& forall|j: int| i <= j < k ==> !(#[trigger] snaps[j].required && !snaps[j].healthy)
        },
        first_failed_required(snaps, i) is None ==> forall|j: int| i <= j < snaps.len() ==> !(
        #[trigger] snaps[j].required && !snaps[j].healthy),
    decreases snaps.len() - i,
{
    if i < snaps.len() {
        lemma_first_failed_required_sink_is_first(snaps, i + 1);
    }
}

/// A flag is found at its first occurrence at or after `i`, and not found only when it
/// does not occur there.
pub proof fn lemma_flag_index_is_first(args: Seq<String>, name: Seq<char>, i: nat)
    ensures
        flag_index(args, name, i) matches Some(k) ==> i <= k < args.len() && args[k as int]@ == name
            && forall|j: int| i <= j < k ==> (#[trigger] args[j])@ != name,
        flag_index(args, name, i) is None ==> forall|j: int| i <= j < args.len() ==> (#[trigger] args[j])@ != name,
    decreases args.len() - i,
{
    if i < args.len() {
        lemma_flag_index_is_first(args, name, i + 1);
    }
}

/// A venue is found by id at its first occurrence at or after `i`, and not found only
/// when no venue there has that id.
pub proof fn lemma_venue_with_id_is_first(venues: Seq<VenueConfig>, id: Seq<char>, i: nat)
    ensures
        venue_with_id(venues, id, i) matches Some(k) ==> i <= k < venues.len() && venues[k as int].id@ == id
            && forall|j: int| i <= j < k ==> (#[trigger] venues[j]).id@ != id,
        venue_with_id(venues, id, i) is None ==> forall|j: int| i <= j < venues.len() ==> (#[trigger] venues[j]).id@ != id,
    decreases venues.len() - i,
{
    if i < venues.len() {
        lemma_venue_with_id_is_first(venues, id, i + 1);
    }
}

} // verus!
