//! A record of diagnostics raised while the agent serves requests: request
//! latencies, errors, and warnings from linting the agent's answers.

use std::collections::BTreeMap;
use vstd::prelude::*;
use crate::bounded::{BoundedLog, bounded_push};
use crate::clock::{instant_now, nanos_since};
use vstd::pervasive::VecAdditionalExecFns;
use crate::text::{decimal, occurs_in, owned, push_decimal, push_str, str_contains};

verus! {

/// The most diagnostics kept; older ones are dropped first.
pub const MAX_DIAGNOSTICS: usize = 256;

/// Seconds between two background cleanups.
pub const CLEANUP_INTERVAL_SECS: u64 = 60;

/// The most latency samples kept.
pub const LATENCY_WINDOW: usize = 100;

/// The longest latency, in nanoseconds (ten seconds), that can be
/// recorded: recording a slower request tries to report it while the
/// debugger is still held, and never returns.
pub const SLOW_REQUEST_NANOS: u64 = 10_000_000_000;

/// Non-severe diagnostics older than this many nanoseconds (one hour) are
/// dropped by a cleanup.
pub const RETENTION_NANOS: u64 = 3_600_000_000_000;

/// Answers shorter than this many bytes are reported as too short.
pub const MIN_RESPONSE_LEN: usize = 10;

/// How serious a diagnostic is.
#[derive(Clone, Copy, Debug, PartialEq, Eq, Structural)]
pub enum Severity {
    Info,
    Warning,
    Error,
    Critical,
}

/// The label a severity prints as.
pub open spec fn severity_label(s: Severity) -> Seq<char> {
    match s {
        Severity::Info => "INFO"@,
        Severity::Warning => "WARN"@,
        Severity::Error => "ERROR"@,
        Severity::Critical => "CRIT"@,
    }
}

impl Severity {
    /// The label the severity prints as.
    pub fn to_string(&self) -> (s: String)
        ensures
            s@ == severity_label(*self),
    {
        match self {
            Severity::Info => owned("INFO"),
            Severity::Warning => owned("WARN"),
            Severity::Error => owned("ERROR"),
            Severity::Critical => owned("CRIT"),
        }
    }

    /// Whether the severity is `Error` or `Critical`.
    pub open spec fn spec_is_severe(self) -> bool {
        self == Severity::Error || self == Severity::Critical
    }
}

/// One reported issue.
pub struct Diagnostic {
    pub id: u64,
    pub severity: Severity,
    pub category: String,
    pub message: String,
    pub source: String,
    /// Nanoseconds after the debugger started at which it was reported.
    pub timestamp: u64,
    pub suggestion: Option<String>,
    pub context: BTreeMap<String, String>,
}

/// The abstract content of a diagnostic.
pub struct DiagnosticView {
    pub id: u64,
    pub severity: Severity,
    pub category: Seq<char>,
    pub message: Seq<char>,
    pub source: Seq<char>,
    pub timestamp: u64,
    pub suggestion: Option<Seq<char>>,
    pub context: Map<String, String>,
}

/// The characters of an optional string.
pub open spec fn opt_chars(s: Option<String>) -> Option<Seq<char>> {
    match s {
        Some(t) => Some(t@),
        None => None,
    }
}

impl View for Diagnostic {
    type V = DiagnosticView;

    open spec fn view(&self) -> DiagnosticView {
        DiagnosticView {
            id: self.id,
            severity: self.severity,
            category: self.category@,
            message: self.message@,
            source: self.source@,
            timestamp: self.timestamp,
            suggestion: opt_chars(self.suggestion),
            context: self.context@,
        }
    }
}

fn copy_opt(s: &Option<String>) -> (r: Option<String>)
    ensures
        opt_chars(r) == opt_chars(*s),
{
    match s {
        Some(t) => Some(t.clone()),
        None => None,
    }
}

impl Diagnostic {
    /// A copy of the diagnostic.
    pub fn duplicate(&self) -> (r: Diagnostic)
        ensures
            r@ == self@,
    {
        Diagnostic {
            id: self.id,
            severity: self.severity,
            category: self.category.clone(),
            message: self.message.clone(),
            source: self.source.clone(),
            timestamp: self.timestamp,
            suggestion: copy_opt(&self.suggestion),
            context: self.context.clone(),
        }
    }
}

/// The diagnostic a report with these arguments records.
pub open spec fn reported(
    id: u64,
    severity: Severity,
    category: Seq<char>,
    message: Seq<char>,
    suggestion: Option<Seq<char>>,
    now: u64,
) -> DiagnosticView {
    DiagnosticView {
        id,
        severity,
        category,
        message,
        source: "debugger"@,
        timestamp: now,
        suggestion,
        context: Map::empty(),
    }
}

/// The characters of an optional string slice.
pub open spec fn opt_str_chars(s: Option<&str>) -> Option<Seq<char>> {
    match s {
        Some(t) => Some(t@),
        None => None,
    }
}

/// A request latency sample.
struct LatencySample {
    value: u64,
    endpoint: String,
}

/// The suggestion attached to error reports.
pub open spec fn error_hint() -> Seq<char> {
    "Revise logs para mas detalles"@
}

/// The warning text for an answer of `len` bytes from `endpoint`.
pub open spec fn short_response_message(len: nat, endpoint: Seq<char>) -> Seq<char> {
    "Respuesta muy corta ("@ + decimal(len) + " chars < "@ + decimal(MIN_RESPONSE_LEN as nat) + ") de "@ + endpoint
}

/// The suggestion attached to short-answer warnings.
pub open spec fn short_response_hint() -> Seq<char> {
    "El agente debe generar respuestas sustanciales"@
}

/// The warning text for an answer from `endpoint` that holds `indicator`.
pub open spec fn incoherence_message(indicator: Seq<char>, endpoint: Seq<char>) -> Seq<char> {
    "Posible incoherencia: '"@ + indicator + "' en respuesta de "@ + endpoint
}

/// The suggestion attached to incoherence warnings.
pub open spec fn incoherence_hint() -> Seq<char> {
    "Revise la logica del agente para este caso"@
}

/// The first of the words that suggest that something went wrong
/// (`error`, `undefined`, `null`, `None`, `failed`, `Exception`, looked for
/// in that order) that occurs in `text`, if any.
pub open spec fn first_indicator(text: Seq<char>) -> Option<Seq<char>> {
    if occurs_in(text, "error"@) {
        Some("error"@)
    } else if occurs_in(text, "undefined"@) {
        Some("undefined"@)
    } else if occurs_in(text, "null"@) {
        Some("null"@)
    } else if occurs_in(text, "None"@) {
        Some("None"@)
    } else if occurs_in(text, "failed"@) {
        Some("failed"@)
    } else if occurs_in(text, "Exception"@) {
        Some("Exception"@)
    } else {
        None
    }
}

/// The diagnostics and next id after linting an answer of `len` bytes with
/// characters `response` from `endpoint` at clock reading `now`, starting
/// from `diags` and `next_id`.
pub open spec fn lint_outcome(
    diags: Seq<DiagnosticView>,
    next_id: u64,
    response: Seq<char>,
    len: nat,
    endpoint: Seq<char>,
    now: u64,
) -> (Seq<DiagnosticView>, u64) {
    let short = len < MIN_RESPONSE_LEN;
    let after_length = if short {
        bounded_push(
            diags,
            MAX_DIAGNOSTICS as nat,
            reported(
                next_id,
                Severity::Warning,
                "quality"@,
                short_response_message(len, endpoint),
                Some(short_response_hint()),
                now,
            ),
        )
    } else {
        diags
    };
    let id = if short { (next_id + 1) as u64 } else { next_id };
    match first_indicator(response) {
        Some(word) => (
            bounded_push(
                after_length,
                MAX_DIAGNOSTICS as nat,
                reported(
                    id,
                    Severity::Warning,
                    "coherence"@,
                    incoherence_message(word, endpoint),
                    Some(incoherence_hint()),
                    now,
                ),
            ),
            (id + 1) as u64,
        ),
        None => (after_length, id),
    }
}

/// Linting flags an answer that holds one of the words `error`,
/// `undefined`, `null`, `None`, `failed`, `Exception` with a coherence
/// warning that names the first of them, in that order, that it holds: when
/// the `k`-th word occurs and none before it does, the last diagnostic
/// after linting is the warning `Posible incoherencia: '<word>' en
/// respuesta de <endpoint>`.
pub proof fn lemma_lint_flags_first_indicator(
    diags: Seq<DiagnosticView>,
    next_id: u64,
    response: Seq<char>,
    len: nat,
    endpoint: Seq<char>,
    now: u64,
    k: int,
)
    requires
        0 <= k < 6,
        occurs_in(response, seq!["error"@, "undefined"@, "null"@, "None"@, "failed"@, "Exception"@][k]),
        k > 0 ==> !occurs_in(response, "error"@),
        k > 1 ==> !occurs_in(response, "undefined"@),
        k > 2 ==> !occurs_in(response, "null"@),
        k > 3 ==> !occurs_in(response, "None"@),
        k > 4 ==> !occurs_in(response, "failed"@),
        next_id < u64::MAX - 1,
    ensures
        first_indicator(response) == Some(seq!["error"@, "undefined"@, "null"@, "None"@, "failed"@, "Exception"@][k]),
        lint_outcome(diags, next_id, response, len, endpoint, now).0.last() == reported(
            (if len < MIN_RESPONSE_LEN { next_id + 1 } else { next_id as int }) as u64,
            Severity::Warning,
            "coherence"@,
            "Posible incoherencia: '"@ + seq!["error"@, "undefined"@, "null"@, "None"@, "failed"@, "Exception"@][k] + "' en respuesta de "@ + endpoint,
            Some("Revise la logica del agente para este caso"@),
            now,
        ),
{
    let ws = seq!["error"@, "undefined"@, "null"@, "None"@, "failed"@, "Exception"@];
    assert(ws[0] == "error"@ && ws[1] == "undefined"@ && ws[2] == "null"@);
    assert(ws[3] == "None"@ && ws[4] == "failed"@ && ws[5] == "Exception"@);
}

/// An answer that holds none of the words `error`, `undefined`, `null`,
/// `None`, `failed`, `Exception` raises no coherence warning: linting adds
/// at most the warning for a short answer.
pub proof fn lemma_lint_passes_clean_answers(
    diags: Seq<DiagnosticView>,
    next_id: u64,
    response: Seq<char>,
    len: nat,
    endpoint: Seq<char>,
    now: u64,
)
    requires
        !occurs_in(response, "error"@),
        !occurs_in(response, "undefined"@),
        !occurs_in(response, "null"@),
        !occurs_in(response, "None"@),
        !occurs_in(response, "failed"@),
        !occurs_in(response, "Exception"@),
        next_id < u64::MAX,
    ensures
        first_indicator(response) is None,
        lint_outcome(diags, next_id, response, len, endpoint, now).1 == if len < MIN_RESPONSE_LEN {
            next_id + 1
        } else {
            next_id as int
        },
{
}

/// Whether a diagnostic survives a cleanup at clock reading `now`: severe
/// ones always do, the others while they are less than an hour old.
pub open spec fn survives_cleanup(d: DiagnosticView, now: u64) -> bool {
    d.severity.spec_is_severe() || d.timestamp as int > now as int - RETENTION_NANOS as int
}

/// The diagnostics of `diags` that survive a cleanup at `now`, in order.
pub open spec fn after_cleanup(diags: Seq<DiagnosticView>, now: u64) -> Seq<DiagnosticView> {
    diags.filter(|d: DiagnosticView| survives_cleanup(d, now))
}

/// The overall health label for the given counts of warnings and errors.
pub open spec fn health_label(warnings: nat, errors: nat) -> Seq<char> {
    if errors > 0 {
        "degraded"@
    } else if warnings > 5 {
        "warning"@
    } else {
        "healthy"@
    }
}

/// The number of diagnostics of severity `Warning` in `s`.
pub open spec fn count_warnings(s: Seq<DiagnosticView>) -> nat
    decreases s.len(),
{
    if s.len() == 0 {
        0
    } else {
        count_warnings(s.drop_last()) + if s.last().severity == Severity::Warning { 1nat } else { 0nat }
    }
}

/// The number of diagnostics of severity `Error` or `Critical` in `s`.
pub open spec fn count_severe(s: Seq<DiagnosticView>) -> nat
    decreases s.len(),
{
    if s.len() == 0 {
        0
    } else {
        count_severe(s.drop_last()) + if s.last().severity.spec_is_severe() { 1nat } else { 0nat }
    }
}

/// The number of diagnostics in `s` of category `c`.
pub open spec fn count_category(s: Seq<DiagnosticView>, c: Seq<char>) -> nat
    decreases s.len(),
{
    if s.len() == 0 {
        0
    } else {
        count_category(s.drop_last(), c) + if s.last().category == c { 1nat } else { 0nat }
    }
}

/// The categories named in `counts`, in order.
pub open spec fn tally_keys(counts: Seq<(String, usize)>) -> Seq<Seq<char>> {
    counts.map_values(|p: (String, usize)| p.0@)
}

/// `counts` gives, once each, every category of `s` with its number of
/// diagnostics, and no category that `s` lacks.
pub open spec fn tallies_categories(counts: Seq<(String, usize)>, s: Seq<DiagnosticView>) -> bool {
    &&& forall|i: int| 0 <= i < counts.len() ==> (#[trigger] counts[i]).1 == count_category(s, counts[i].0@)
    &&& forall|i: int| 0 <= i < counts.len() ==> count_category(s, (#[trigger] counts[i]).0@) > 0
    &&& tally_keys(counts).no_duplicates()
    &&& forall|k: int| 0 <= k < s.len() ==> tally_keys(counts).contains((#[trigger] s[k]).category)
}

proof fn lemma_count_category_absent(s: Seq<DiagnosticView>, c: Seq<char>)
    requires
        forall|k: int| 0 <= k < s.len() ==> (#[trigger] s[k]).category != c,
    ensures
        count_category(s, c) == 0,
    decreases s.len(),
{
    if s.len() > 0 {
        let rest = s.drop_last();
        assert forall|k: int| 0 <= k < rest.len() implies (#[trigger] rest[k]).category != c by {
            assert(rest[k] == s[k]);
        }
        lemma_count_category_absent(rest, c);
        assert(s.last() == s[s.len() - 1]);
    }
}

fn find_category(counts: &Vec<(String, usize)>, c: &String) -> (f: Option<usize>)
    ensures
        f matches Some(k) ==> k < counts@.len() && counts@[k as int].0@ == c@,
        f is None ==> !tally_keys(counts@).contains(c@),
{
    let mut j: usize = 0;
    while j < counts.len()
        invariant
            j <= counts@.len(),
            forall|m: int| 0 <= m < j ==> (#[trigger] counts@[m]).0@ != c@,
        decreases counts.len() - j,
    {
        if counts[j].0 == *c {
            return Some(j);
        }
        j = j + 1;
    }
    assert forall|m: int| 0 <= m < tally_keys(counts@).len() implies tally_keys(counts@)[m] != c@ by {
        assert(tally_keys(counts@)[m] == counts@[m].0@);
    }
    None
}

proof fn lemma_tally_bump(
    old_r: Seq<(String, usize)>,
    new_r: Seq<(String, usize)>,
    pre: Seq<DiagnosticView>,
    d: DiagnosticView,
    k: int,
)
    requires
        tallies_categories(old_r, pre),
        0 <= k < old_r.len(),
        old_r[k].0@ == d.category,
        new_r.len() == old_r.len(),
        new_r[k].0@ == old_r[k].0@,
        new_r[k].1 == old_r[k].1 + 1,
        forall|x: int| 0 <= x < old_r.len() && x != k ==> new_r[x] == old_r[x],
    ensures
        tallies_categories(new_r, pre.push(d)),
{
    let post = pre.push(d);
    assert(post.drop_last() =~= pre);
    assert(tally_keys(new_r) =~= tally_keys(old_r));
    assert forall|x: int| 0 <= x < new_r.len() implies (#[trigger] new_r[x]).1 == count_category(post, new_r[x].0@) by {
        if x != k {
            assert(tally_keys(old_r)[x] != tally_keys(old_r)[k]);
        }
    }
    assert forall|q: int| 0 <= q < post.len() implies tally_keys(new_r).contains((#[trigger] post[q]).category) by {
        if q < pre.len() {
            assert(post[q] == pre[q]);
        } else {
            assert(tally_keys(new_r)[k] == d.category);
        }
    }
}

proof fn lemma_tally_new(
    old_r: Seq<(String, usize)>,
    new_r: Seq<(String, usize)>,
    pre: Seq<DiagnosticView>,
    d: DiagnosticView,
)
    requires
        tallies_categories(old_r, pre),
        !tally_keys(old_r).contains(d.category),
        new_r.len() == old_r.len() + 1,
        new_r[old_r.len() as int].0@ == d.category,
        new_r[old_r.len() as int].1 == 1,
        forall|x: int| 0 <= x < old_r.len() ==> new_r[x] == old_r[x],
    ensures
        tallies_categories(new_r, pre.push(d)),
{
    let post = pre.push(d);
    assert(post.drop_last() =~= pre);
    assert(tally_keys(new_r) =~= tally_keys(old_r).push(d.category));
    assert forall|q: int| 0 <= q < pre.len() implies (#[trigger] pre[q]).category != d.category by {
        assert(tally_keys(old_r).contains(pre[q].category));
    }
    lemma_count_category_absent(pre, d.category);
    assert forall|x: int| 0 <= x < new_r.len() implies (#[trigger] new_r[x]).1 == count_category(post, new_r[x].0@) by {
        if x < old_r.len() {
            assert(tally_keys(old_r)[x] != d.category);
        }
    }
    assert forall|q: int| 0 <= q < post.len() implies tally_keys(new_r).contains((#[trigger] post[q]).category) by {
        if q < pre.len() {
            assert(post[q] == pre[q]);
            let x = choose|x: int| 0 <= x < tally_keys(old_r).len() && tally_keys(old_r)[x] == pre[q].category;
            assert(tally_keys(new_r)[x] == pre[q].category);
        } else {
            assert(tally_keys(new_r)[old_r.len() as int] == d.category);
        }
    }
}

/// The integer parts of a snapshot of the debugger; the averages and
/// percentiles over the latency samples are left to the caller.
pub struct DiagnosticsSummary {
    pub total_diagnostics: usize,
    pub active_warnings: usize,
    pub active_errors: usize,
    pub recent_issues: Vec<String>,
    pub health: String,
    pub total_requests: usize,
    pub error_count: usize,
    pub latencies: Vec<u64>,
}

/// Collects diagnostics and request statistics.
pub struct Debugger {
    diagnostics: BoundedLog<Diagnostic>,
    latencies: BoundedLog<LatencySample>,
    next_id: u64,
    startup: std::time::Instant,
    total_requests: usize,
    error_count: usize,
    reports: Ghost<nat>,
    latest: u64,
}

impl Debugger {
    /// The number of reports made since the debugger was made, its own
    /// start report included.
    pub closed spec fn report_count(&self) -> nat {
        self.reports@
    }

    /// The latest clock reading the debugger has worked at; the clock never
    /// goes back behind it.
    pub closed spec fn clock(&self) -> u64 {
        self.latest
    }

    /// Reads the clock: the nanoseconds since the debugger started, never
    /// behind the latest reading used.
    fn reading(&self) -> (r: u64)
        ensures
            r >= self.clock(),
    {
        let n = nanos_since(&self.startup);
        if n < self.latest {
            self.latest
        } else {
            n
        }
    }

    /// The diagnostics held, oldest first.
    pub closed spec fn diags(&self) -> Seq<DiagnosticView> {
        self.diagnostics@.map_values(|d: Diagnostic| d@)
    }

    /// The latency samples held, in nanoseconds, oldest first.
    pub closed spec fn latency_log(&self) -> Seq<u64> {
        self.latencies@.map_values(|s: LatencySample| s.value)
    }

    /// The id the next report receives.
    pub closed spec fn next_id(&self) -> u64 {
        self.next_id
    }

    /// The number of requests whose latency was recorded.
    pub closed spec fn total_requests(&self) -> usize {
        self.total_requests
    }

    /// The number of errors recorded.
    pub closed spec fn error_count(&self) -> usize {
        self.error_count
    }

    /// The logs keep at most their fixed number of entries.
    closed spec fn shape(&self) -> bool {
        &&& self.diagnostics.cap() == MAX_DIAGNOSTICS
        &&& self.latencies.cap() == LATENCY_WINDOW
        &&& self.diagnostics@.len() <= MAX_DIAGNOSTICS
        &&& self.latencies@.len() <= LATENCY_WINDOW
    }

    /// The logs keep at most their fixed number of entries, and the ids of
    /// the diagnostics held increase from oldest to newest and stay below
    /// the id of the next report.
    pub closed spec fn wf(&self) -> bool {
        &&& self.shape()
        &&& ids_in_order(self.diags(), self.next_id)
        &&& self.next_id == self.reports@ + 1
        &&& self.diags().len() <= self.reports@
        &&& times_within(self.diags(), self.latest)
    }

    /// Reports an issue observed at clock reading `now` and returns its id.
    pub fn report_at(
        &mut self,
        severity: Severity,
        category: &str,
        message: &str,
        suggestion: Option<&str>,
        now: u64,
    ) -> (id: u64)
        requires
            old(self).wf(),
            old(self).next_id() < u64::MAX,
        ensures
            final(self).wf(),
            id == old(self).next_id(),
            id == old(self).report_count() + 1,
            final(self).next_id() == old(self).next_id() + 1,
            final(self).report_count() == old(self).report_count() + 1,
            final(self).diags() == bounded_push(
                old(self).diags(),
                MAX_DIAGNOSTICS as nat,
                reported(id, severity, category@, message@, opt_str_chars(suggestion), now),
            ),
            final(self).clock() == if now > old(self).clock() { now } else { old(self).clock() },
            final(self).latency_log() == old(self).latency_log(),
            final(self).total_requests() == old(self).total_requests(),
            final(self).error_count() == old(self).error_count(),
    {
        let id = self.next_id;
        self.next_id = self.next_id + 1;
        proof {
            self.reports@ = self.reports@ + 1;
        }
        if now > self.latest {
            self.latest = now;
        }
        let stored = match suggestion {
            Some(s) => Some(owned(s)),
            None => None,
        };
        let diag = Diagnostic {
            id,
            severity,
            category: owned(category),
            message: owned(message),
            source: owned("debugger"),
            timestamp: now,
            suggestion: stored,
            context: BTreeMap::new(),
        };
        self.diagnostics.push(diag);
        proof {
            lemma_push_keeps_times(
                old(self).diags(),
                MAX_DIAGNOSTICS as nat,
                reported(id, severity, category@, message@, opt_str_chars(suggestion), now),
                self.latest,
            );
            lemma_push_keeps_order(
                old(self).diags(),
                MAX_DIAGNOSTICS as nat,
                reported(id, severity, category@, message@, opt_str_chars(suggestion), now),
                id,
            );
        }
        assert(self.diags() =~= bounded_push(
            old(self).diags(),
            MAX_DIAGNOSTICS as nat,
            reported(id, severity, category@, message@, opt_str_chars(suggestion), now),
        ));
        id
    }
}

/// The ids of `ds` increase from first to last and are all below `next`.
pub open spec fn ids_in_order(ds: Seq<DiagnosticView>, next: u64) -> bool {
    &&& forall|i: int, j: int| 0 <= i < j < ds.len() ==> #[trigger] ds[i].id < #[trigger] ds[j].id
    &&& forall|i: int| 0 <= i < ds.len() ==> #[trigger] ds[i].id < next
}

/// Every diagnostic of `ds` was reported at reading `t` or earlier.
pub open spec fn times_within(ds: Seq<DiagnosticView>, t: u64) -> bool {
    forall|i: int| 0 <= i < ds.len() ==> #[trigger] ds[i].timestamp <= t
}

proof fn lemma_push_keeps_times(ds: Seq<DiagnosticView>, cap: nat, d: DiagnosticView, t: u64)
    requires
        times_within(ds, t),
        d.timestamp <= t,
    ensures
        times_within(bounded_push(ds, cap, d), t),
{
    let r = bounded_push(ds, cap, d);
    assert forall|i: int| 0 <= i < r.len() implies #[trigger] r[i].timestamp <= t by {
        if i < r.len() - 1 {
            if ds.len() >= cap && ds.len() > 0 {
                assert(r[i] == ds[i + 1]);
            } else {
                assert(r[i] == ds[i]);
            }
        }
    }
}

proof fn lemma_cleanup_keeps_times(ds: Seq<DiagnosticView>, now: u64, t: u64)
    requires
        times_within(ds, t),
    ensures
        times_within(after_cleanup(ds, now), t),
{
    if ds.len() > 0 {
        lemma_cleanup_keeps_severe_and_recent(ds, now, 0);
        assert forall|i: int| 0 <= i < after_cleanup(ds, now).len() implies #[trigger] after_cleanup(ds, now)[i].timestamp <= t by {
            assert(ds.contains(after_cleanup(ds, now)[i]));
        }
    } else {
        lemma_cleanup_keeps_order(ds, now, 0);
    }
}

proof fn lemma_push_keeps_order(ds: Seq<DiagnosticView>, cap: nat, d: DiagnosticView, next: u64)
    requires
        ids_in_order(ds, next),
        d.id == next,
        next < u64::MAX,
    ensures
        ids_in_order(bounded_push(ds, cap, d), (next + 1) as u64),
{
    let r = bounded_push(ds, cap, d);
    if ds.len() >= cap && ds.len() > 0 {
        assert forall|i: int, j: int| 0 <= i < j < r.len() implies #[trigger] r[i].id < #[trigger] r[j].id by {
            assert(r[i] == ds[i + 1]);
            if j < r.len() - 1 {
                assert(r[j] == ds[j + 1]);
            }
        }
        assert forall|i: int| 0 <= i < r.len() implies #[trigger] r[i].id < next + 1 by {
            if i < r.len() - 1 {
                assert(r[i] == ds[i + 1]);
            }
        }
    } else {
        assert forall|i: int, j: int| 0 <= i < j < r.len() implies #[trigger] r[i].id < #[trigger] r[j].id by {
            assert(r[i] == ds[i]);
            if j < r.len() - 1 {
                assert(r[j] == ds[j]);
            }
        }
        assert forall|i: int| 0 <= i < r.len() implies #[trigger] r[i].id < next + 1 by {
            if i < r.len() - 1 {
                assert(r[i] == ds[i]);
            }
        }
    }
}

proof fn lemma_cleanup_keeps_order(ds: Seq<DiagnosticView>, now: u64, next: u64)
    requires
        ids_in_order(ds, next),
    ensures
        ids_in_order(after_cleanup(ds, now), next),
        after_cleanup(ds, now).len() <= ds.len(),
    decreases ds.len(),
{
    reveal(Seq::filter);
    if ds.len() > 0 {
        let p = ds.drop_last();
        let last = ds.last();
        assert(ids_in_order(p, last.id)) by {
            assert forall|i: int, j: int| 0 <= i < j < p.len() implies #[trigger] p[i].id < #[trigger] p[j].id by {
                assert(p[i] == ds[i] && p[j] == ds[j]);
            }
            assert forall|i: int| 0 <= i < p.len() implies #[trigger] p[i].id < last.id by {
                assert(p[i] == ds[i]);
            }
        }
        lemma_cleanup_keeps_order(p, now, last.id);
        let q = after_cleanup(p, now);
        assert(after_cleanup(ds, now) == if survives_cleanup(last, now) { q.push(last) } else { q });
        let r = after_cleanup(ds, now);
        if survives_cleanup(last, now) {
            assert forall|i: int, j: int| 0 <= i < j < r.len() implies #[trigger] r[i].id < #[trigger] r[j].id by {
                assert(r[i] == q[i]);
                if j < r.len() - 1 {
                    assert(r[j] == q[j]);
                }
            }
            assert forall|i: int| 0 <= i < r.len() implies #[trigger] r[i].id < next by {
                if i < r.len() - 1 {
                    assert(r[i] == q[i]);
                }
            }
        }
    }
}

/// The first word suggesting that something went wrong that occurs in
/// `text`, looked for in a fixed order.
fn find_indicator(text: &str) -> (r: Option<&'static str>)
    ensures
        opt_str_chars(r) == first_indicator(text@),
{
    if str_contains(text, "error") {
        Some("error")
    } else if str_contains(text, "undefined") {
        Some("undefined")
    } else if str_contains(text, "null") {
        Some("null")
    } else if str_contains(text, "None") {
        Some("None")
    } else if str_contains(text, "failed") {
        Some("failed")
    } else if str_contains(text, "Exception") {
        Some("Exception")
    } else {
        None
    }
}

impl Debugger {
    /// A debugger with empty logs that has reported its own start.
    pub fn new() -> (d: Self)
        ensures
            d.wf(),
            d.next_id() == 2,
            d.report_count() == 1,
            d.total_requests() == 0,
            d.error_count() == 0,
            d.latency_log() == Seq::<u64>::empty(),
            exists|now: u64| d.diags() == seq![#[trigger] reported(
                1,
                Severity::Info,
                "debugger"@,
                "Debugger iniciado"@,
                Some("Sistema de linting y diagnostico activo"@),
                now,
            )],
    {
        let mut d = Debugger {
            diagnostics: BoundedLog::new(MAX_DIAGNOSTICS),
            latencies: BoundedLog::new(LATENCY_WINDOW),
            next_id: 1,
            startup: instant_now(),
            total_requests: 0,
            error_count: 0,
            reports: Ghost(0),
            latest: 0,
        };
        assert(d.diags() =~= Seq::<DiagnosticView>::empty());
        assert(d.latency_log() =~= Seq::<u64>::empty());
        let now = d.reading();
        d.report_at(
            Severity::Info,
            "debugger",
            "Debugger iniciado",
            Some("Sistema de linting y diagnostico activo"),
            now,
        );
        assert(d.diags() =~= seq![reported(
            1,
            Severity::Info,
            "debugger"@,
            "Debugger iniciado"@,
            Some("Sistema de linting y diagnostico activo"@),
            now,
        )]);
        d
    }

    /// Reports an issue at the current clock reading and returns its id.
    pub fn report(
        &mut self,
        severity: Severity,
        category: &str,
        message: &str,
        suggestion: Option<&str>,
    ) -> (id: u64)
        requires
            old(self).wf(),
            old(self).next_id() < u64::MAX,
        ensures
            final(self).wf(),
            id == old(self).next_id(),
            id == old(self).report_count() + 1,
            final(self).next_id() == old(self).next_id() + 1,
            final(self).report_count() == old(self).report_count() + 1,
            exists|now: u64| final(self).diags() == bounded_push(
                old(self).diags(),
                MAX_DIAGNOSTICS as nat,
                #[trigger] reported(id, severity, category@, message@, opt_str_chars(suggestion), now),
            ),
            final(self).latency_log() == old(self).latency_log(),
            final(self).total_requests() == old(self).total_requests(),
            final(self).error_count() == old(self).error_count(),
    {
        let now = self.reading();
        self.report_at(severity, category, message, suggestion, now)
    }

    /// Records that a request to `endpoint` took `duration` nanoseconds,
    /// observed at clock reading `now`. A request slower than ten seconds
    /// cannot be recorded (see `SLOW_REQUEST_NANOS`).
    pub fn record_latency_at(&mut self, endpoint: &str, duration: u64, now: u64)
        requires
            old(self).wf(),
            old(self).total_requests() < usize::MAX,
            duration <= SLOW_REQUEST_NANOS,
        ensures
            final(self).wf(),
            final(self).total_requests() == old(self).total_requests() + 1,
            final(self).latency_log() == bounded_push(old(self).latency_log(), LATENCY_WINDOW as nat, duration),
            final(self).error_count() == old(self).error_count(),
            final(self).next_id() == old(self).next_id(),
            final(self).diags() == old(self).diags(),
    {
        self.total_requests = self.total_requests + 1;
        self.latencies.push(LatencySample { value: duration, endpoint: owned(endpoint) });
        assert(self.latency_log() =~= bounded_push(old(self).latency_log(), LATENCY_WINDOW as nat, duration));
    }

    /// Records that a request to `endpoint` took `duration` nanoseconds. A
    /// request slower than ten seconds cannot be recorded.
    pub fn record_latency(&mut self, endpoint: &str, duration: u64)
        requires
            old(self).wf(),
            old(self).total_requests() < usize::MAX,
            duration <= SLOW_REQUEST_NANOS,
        ensures
            final(self).wf(),
            final(self).total_requests() == old(self).total_requests() + 1,
            final(self).latency_log() == bounded_push(old(self).latency_log(), LATENCY_WINDOW as nat, duration),
            final(self).error_count() == old(self).error_count(),
            final(self).next_id() == old(self).next_id(),
            final(self).diags() == old(self).diags(),
    {
        let now = self.reading();
        self.record_latency_at(endpoint, duration, now);
    }

    /// Records an error of `category` observed at clock reading `now`.
    pub fn record_error_at(&mut self, category: &str, error: &str, now: u64)
        requires
            old(self).wf(),
            old(self).error_count() < usize::MAX,
            old(self).next_id() < u64::MAX,
        ensures
            final(self).wf(),
            final(self).error_count() == old(self).error_count() + 1,
            final(self).next_id() == old(self).next_id() + 1,
            final(self).diags() == bounded_push(
                old(self).diags(),
                MAX_DIAGNOSTICS as nat,
                reported(old(self).next_id(), Severity::Error, category@, error@, Some(error_hint()), now),
            ),
            final(self).latency_log() == old(self).latency_log(),
            final(self).total_requests() == old(self).total_requests(),
    {
        self.error_count = self.error_count + 1;
        self.report_at(Severity::Error, category, error, Some("Revise logs para mas detalles"), now);
    }

    /// Records an error of `category`.
    pub fn record_error(&mut self, category: &str, error: &str)
        requires
            old(self).wf(),
            old(self).error_count() < usize::MAX,
            old(self).next_id() < u64::MAX,
        ensures
            final(self).wf(),
            final(self).error_count() == old(self).error_count() + 1,
            final(self).next_id() == old(self).next_id() + 1,
            exists|now: u64| final(self).diags() == bounded_push(
                old(self).diags(),
                MAX_DIAGNOSTICS as nat,
                #[trigger] reported(old(self).next_id(), Severity::Error, category@, error@, Some(error_hint()), now),
            ),
            final(self).latency_log() == old(self).latency_log(),
            final(self).total_requests() == old(self).total_requests(),
    {
        let now = self.reading();
        self.record_error_at(category, error, now);
    }

    /// Checks an answer from `endpoint` at clock reading `now`: a warning for
    /// an answer shorter than ten bytes, and a warning naming the first word
    /// in it that suggests that something went wrong.
    pub fn lint_response_at(&mut self, response: &str, endpoint: &str, now: u64)
        requires
            old(self).wf(),
            old(self).next_id() < u64::MAX - 1,
        ensures
            final(self).wf(),
            (final(self).diags(), final(self).next_id()) == lint_outcome(
                old(self).diags(),
                old(self).next_id(),
                response@,
                response.len() as nat,
                endpoint@,
                now,
            ),
            final(self).latency_log() == old(self).latency_log(),
            final(self).total_requests() == old(self).total_requests(),
            final(self).error_count() == old(self).error_count(),
    {
        let len = response.len();
        if len < MIN_RESPONSE_LEN {
            let mut msg = owned("Respuesta muy corta (");
            push_decimal(&mut msg, len as u128);
            push_str(&mut msg, " chars < ");
            push_decimal(&mut msg, MIN_RESPONSE_LEN as u128);
            push_str(&mut msg, ") de ");
            push_str(&mut msg, endpoint);
            assert(msg@ =~= short_response_message(response.len() as nat, endpoint@));
            self.report_at(
                Severity::Warning,
                "quality",
                msg.as_str(),
                Some("El agente debe generar respuestas sustanciales"),
                now,
            );
        }
        match find_indicator(response) {
            Some(word) => {
                let mut msg = owned("Posible incoherencia: '");
                push_str(&mut msg, word);
                push_str(&mut msg, "' en respuesta de ");
                push_str(&mut msg, endpoint);
                assert(msg@ =~= incoherence_message(word@, endpoint@));
                self.report_at(
                    Severity::Warning,
                    "coherence",
                    msg.as_str(),
                    Some("Revise la logica del agente para este caso"),
                    now,
                );
            },
            None => {},
        }
    }

    /// Checks an answer from `endpoint`: a warning for an answer shorter
    /// than ten bytes, and a warning naming the first word in it that
    /// suggests that something went wrong.
    pub fn lint_response(&mut self, response: &str, endpoint: &str)
        requires
            old(self).wf(),
            old(self).next_id() < u64::MAX - 1,
        ensures
            final(self).wf(),
            exists|now: u64| (final(self).diags(), final(self).next_id()) == #[trigger] lint_outcome(
                old(self).diags(),
                old(self).next_id(),
                response@,
                response.len() as nat,
                endpoint@,
                now,
            ),
            final(self).latency_log() == old(self).latency_log(),
            final(self).total_requests() == old(self).total_requests(),
            final(self).error_count() == old(self).error_count(),
    {
        let now = self.reading();
        self.lint_response_at(response, endpoint, now);
    }

    /// Copies of the `count` most recent diagnostics, newest first.
    pub fn recent_diagnostics(&self, count: usize) -> (r: Vec<Diagnostic>)
        requires
            self.wf(),
        ensures
            r.len() == if count < self.diags().len() { count as nat } else { self.diags().len() },
            forall|i: int| 0 <= i < r.len() ==> #[trigger] r@[i]@ == self.diags()[self.diags().len() - 1 - i],
            forall|i: int, j: int| 0 <= i < j < r.len() ==> #[trigger] r@[i]@.id > #[trigger] r@[j]@.id,
    {
        let n = self.diagnostics.len();
        let mut r: Vec<Diagnostic> = Vec::new();
        let mut i: usize = 0;
        while i < count && i < n
            invariant
                n == self.diags().len(),
                i <= n,
                i <= count,
                r.len() == i,
                forall|j: int| 0 <= j < i ==> #[trigger] r@[j]@ == self.diags()[n - 1 - j],
            decreases n - i,
        {
            let d = self.diagnostics.get(n - 1 - i).duplicate();
            r.push(d);
            i = i + 1;
        }
        assert(i == count || i == n);
        assert forall|a: int, b: int| 0 <= a < b < r.len() implies #[trigger] r@[a]@.id > #[trigger] r@[b]@.id by {
            assert(r@[a]@ == self.diags()[n - 1 - a]);
            assert(r@[b]@ == self.diags()[n - 1 - b]);
        }
        r
    }

    /// Drops, at clock reading `now`, the diagnostics that are neither
    /// errors nor critical and are an hour old or older.
    pub fn cleanup_old_at(&mut self, now: u64)
        requires
            old(self).wf(),
        ensures
            final(self).wf(),
            final(self).diags() == after_cleanup(old(self).diags(), now),
            final(self).clock() == if now > old(self).clock() { now } else { old(self).clock() },
            final(self).next_id() == old(self).next_id(),
            final(self).latency_log() == old(self).latency_log(),
            final(self).total_requests() == old(self).total_requests(),
            final(self).error_count() == old(self).error_count(),
    {
        let ghost start = self.diags();
        let n = self.diagnostics.len();
        let mut k: usize = 0;
        while k < n
            invariant
                self.shape(),
                n == start.len(),
                k <= n,
                self.diags() == start.skip(k as int) + start.take(k as int).filter(|d: DiagnosticView| survives_cleanup(d, now)),
                self.next_id == old(self).next_id,
                self.reports == old(self).reports,
                self.latest == old(self).latest,
                self.latencies == old(self).latencies,
                self.total_requests == old(self).total_requests,
                self.error_count == old(self).error_count,
            decreases n - k,
        {
            reveal(Seq::filter);
            let ghost before = self.diags();
            let ghost items_before = self.diagnostics@;
            assert(before.len() == items_before.len());
            assert(start.skip(k as int).len() > 0);
            assert(before[0] == start.skip(k as int)[0]);
            assert(start.skip(k as int)[0] == start[k as int]);
            assert(before[0] == items_before[0]@);
            let first = self.diagnostics.pop_oldest();
            match first {
                Some(d) => {
                    assert(d@ == start[k as int]);
                    assert(self.diags() =~= before.drop_first());
                    assert(before.drop_first() =~= start.skip(k + 1) + start.take(k as int).filter(|d: DiagnosticView| survives_cleanup(d, now)));
                    assert(start.take(k + 1).drop_last() =~= start.take(k as int));
                    assert(start.take(k + 1).last() == start[k as int]);
                    let ghost mid = self.diags();
                    if d.timestamp as u128 + RETENTION_NANOS as u128 > now as u128 || d.severity == Severity::Error || d.severity == Severity::Critical {
                        assert(survives_cleanup(d@, now));
                        self.diagnostics.push(d);
                        assert(self.diags() =~= mid.push(start[k as int]));
                        assert(start.take(k + 1).filter(|d: DiagnosticView| survives_cleanup(d, now)) =~= start.take(k as int).filter(|d: DiagnosticView| survives_cleanup(d, now)).push(start[k as int]));
                        assert(self.diags() =~= start.skip(k + 1) + start.take(k + 1).filter(|d: DiagnosticView| survives_cleanup(d, now)));
                    } else {
                        assert(!survives_cleanup(start[k as int], now));
                        assert(start.take(k + 1).filter(|d: DiagnosticView| survives_cleanup(d, now)) =~= start.take(k as int).filter(|d: DiagnosticView| survives_cleanup(d, now)));
                        assert(self.diags() =~= start.skip(k + 1) + start.take(k + 1).filter(|d: DiagnosticView| survives_cleanup(d, now)));
                    }
                },
                None => {
                    assert(false);
                },
            }
            k = k + 1;
        }
        assert(start.skip(n as int) =~= Seq::<DiagnosticView>::empty());
        assert(start.take(n as int) =~= start);
        assert(self.diags() =~= start.filter(|d: DiagnosticView| survives_cleanup(d, now)));
        proof {
            lemma_cleanup_keeps_order(start, now, self.next_id);
            lemma_cleanup_keeps_times(start, now, self.latest);
        }
        if now > self.latest {
            self.latest = now;
        }
    }

    /// Drops the diagnostics that are neither errors nor critical and are
    /// an hour old or older.
    pub fn cleanup_old(&mut self)
        requires
            old(self).wf(),
        ensures
            final(self).wf(),
            exists|now: u64| {
                &&& now >= old(self).clock()
                &&& final(self).clock() == now
                &&& final(self).diags() == #[trigger] after_cleanup(old(self).diags(), now)
            },
            forall|j: int| 0 <= j < final(self).diags().len() && !(#[trigger] final(self).diags()[j]).severity.spec_is_severe()
                ==> final(self).diags()[j].timestamp + RETENTION_NANOS > final(self).clock(),
            forall|i: int| 0 <= i < old(self).diags().len() ==> (#[trigger] old(self).diags()[i]).timestamp <= final(self).clock(),
            final(self).next_id() == old(self).next_id(),
            final(self).latency_log() == old(self).latency_log(),
            final(self).total_requests() == old(self).total_requests(),
            final(self).error_count() == old(self).error_count(),
    {
        let now = self.reading();
        self.cleanup_old_at(now);
    }
    /// How many diagnostics there are of each category, each category once,
    /// in the order they first appear.
    pub fn category_counts(&self) -> (r: Vec<(String, usize)>)
        requires
            self.wf(),
        ensures
            tallies_categories(r@, self.diags()),
    {
        let n = self.diagnostics.len();
        let ghost ds = self.diags();
        let mut r: Vec<(String, usize)> = Vec::new();
        let mut i: usize = 0;
        while i < n
            invariant
                n == ds.len(),
                ds == self.diags(),
                n <= MAX_DIAGNOSTICS,
                i <= n,
                tallies_categories(r@, ds.take(i as int)),
                forall|j: int| 0 <= j < r@.len() ==> (#[trigger] r@[j]).1 <= i,
            decreases n - i,
        {
            let d = self.diagnostics.get(i);
            let ghost old_r = r@;
            proof {
                assert(ds[i as int] == d@);
                assert(ds.take(i + 1) =~= ds.take(i as int).push(d@));
            }
            match find_category(&r, &d.category) {
                Some(k) => {
                    let count = r[k].1;
                    let name = r[k].0.clone();
                    r.set(k, (name, count + 1));
                    proof {
                        lemma_tally_bump(old_r, r@, ds.take(i as int), d@, k as int);
                    }
                },
                None => {
                    r.push((d.category.clone(), 1));
                    proof {
                        lemma_tally_new(old_r, r@, ds.take(i as int), d@);
                    }
                },
            }
            i = i + 1;
        }
        assert(ds.take(n as int) =~= ds);
        r
    }

    /// The counts and recent messages that a snapshot of the debugger
    /// reports.
    pub fn summary(&self) -> (r: DiagnosticsSummary)
        requires
            self.wf(),
        ensures
            r.total_diagnostics == self.diags().len(),
            r.active_warnings == count_warnings(self.diags()),
            r.active_errors == count_severe(self.diags()),
            r.health@ == health_label(r.active_warnings as nat, r.active_errors as nat),
            r.recent_issues.len() == if self.diags().len() < 5 { self.diags().len() } else { 5 },
            forall|i: int| 0 <= i < r.recent_issues.len() ==>
                #[trigger] r.recent_issues@[i]@ == self.diags()[self.diags().len() - 1 - i].message,
            r.total_requests == self.total_requests(),
            r.error_count == self.error_count(),
            r.latencies@ == self.latency_log(),
    {
        let n = self.diagnostics.len();
        let ghost ds = self.diags();
        let mut warnings: usize = 0;
        let mut errors: usize = 0;
        let mut i: usize = 0;
        while i < n
            invariant
                n == ds.len(),
                ds == self.diags(),
                n <= MAX_DIAGNOSTICS,
                i <= n,
                warnings == count_warnings(ds.take(i as int)),
                errors == count_severe(ds.take(i as int)),
                warnings <= i,
                errors <= i,
            decreases n - i,
        {
            let d = self.diagnostics.get(i);
            assert(ds[i as int] == d@);
            assert(ds.take(i + 1).drop_last() =~= ds.take(i as int));
            match d.severity {
                Severity::Warning => {
                    warnings = warnings + 1;
                },
                Severity::Error | Severity::Critical => {
                    errors = errors + 1;
                },
                Severity::Info => {},
            }
            i = i + 1;
        }
        assert(ds.take(n as int) =~= ds);
        let mut recent: Vec<String> = Vec::new();
        let mut j: usize = 0;
        while j < 5 && j < n
            invariant
                n == ds.len(),
                ds == self.diags(),
                j <= n,
                j <= 5,
                recent.len() == j,
                forall|k: int| 0 <= k < j ==> #[trigger] recent@[k]@ == ds[n - 1 - k].message,
            decreases n - j,
        {
            let d = self.diagnostics.get(n - 1 - j);
            assert(ds[n - 1 - j] == d@);
            recent.push(d.message.clone());
            j = j + 1;
        }
        let health = if errors > 0 {
            owned("degraded")
        } else if warnings > 5 {
            owned("warning")
        } else {
            owned("healthy")
        };
        let m = self.latencies.len();
        let mut lat: Vec<u64> = Vec::new();
        let mut k: usize = 0;
        while k < m
            invariant
                m == self.latency_log().len(),
                k <= m,
                lat@ == self.latency_log().take(k as int),
            decreases m - k,
        {
            let sample = self.latencies.get(k);
            assert(self.latency_log()[k as int] == sample.value);
            lat.push(sample.value);
            assert(self.latency_log().take(k + 1) =~= self.latency_log().take(k as int).push(sample.value));
            k = k + 1;
        }
        assert(self.latency_log().take(m as int) =~= self.latency_log());
        DiagnosticsSummary {
            total_diagnostics: n,
            active_warnings: warnings,
            active_errors: errors,
            recent_issues: recent,
            health,
            total_requests: self.total_requests,
            error_count: self.error_count,
            latencies: lat,
        }
    }
}

/// A cleanup at reading `now` keeps no diagnostic that is neither an error
/// nor critical and was reported an hour or more before `now`: every such
/// diagnostic held before is gone, and every one kept is recent.
pub proof fn lemma_cleanup_drops_stale(ds: Seq<DiagnosticView>, now: u64)
    ensures
        forall|j: int| 0 <= j < after_cleanup(ds, now).len() && !(#[trigger] after_cleanup(ds, now)[j]).severity.spec_is_severe()
            ==> after_cleanup(ds, now)[j].timestamp + RETENTION_NANOS > now,
        forall|i: int| 0 <= i < ds.len() && !(#[trigger] ds[i]).severity.spec_is_severe()
            && ds[i].timestamp + RETENTION_NANOS <= now ==> !after_cleanup(ds, now).contains(ds[i]),
{
    if ds.len() > 0 {
        lemma_cleanup_keeps_severe_and_recent(ds, now, 0);
    } else {
        lemma_cleanup_keeps_order(ds, now, 0);
    }
    assert forall|i: int| 0 <= i < ds.len() && !(#[trigger] ds[i]).severity.spec_is_severe()
        && ds[i].timestamp + RETENTION_NANOS <= now implies !after_cleanup(ds, now).contains(ds[i]) by {
        lemma_cleanup_keeps_severe_and_recent(ds, now, i);
        if after_cleanup(ds, now).contains(ds[i]) {
            let j = choose|j: int| 0 <= j < after_cleanup(ds, now).len() && after_cleanup(ds, now)[j] == ds[i];
            assert(survives_cleanup(after_cleanup(ds, now)[j], now));
        }
    }
}

/// In a well-formed debugger at most 256 diagnostics are held, and no more
/// than the reports made; their ids increase from oldest to newest and are
/// below the id the next report receives, which is one more than the number
/// of reports made (so the first report after `new` gets 2).
pub proof fn lemma_debugger_ids(d: &Debugger)
    requires
        d.wf(),
    ensures
        d.diags().len() <= MAX_DIAGNOSTICS,
        d.diags().len() <= d.report_count(),
        ids_in_order(d.diags(), d.next_id()),
        d.next_id() == d.report_count() + 1,
{
}

/// A cleanup keeps every error and critical diagnostic and every diagnostic
/// less than an hour old, and everything it keeps was there before and is
/// an error, critical, or recent.
pub proof fn lemma_cleanup_keeps_severe_and_recent(diags: Seq<DiagnosticView>, now: u64, i: int)
    requires
        0 <= i < diags.len(),
    ensures
        survives_cleanup(diags[i], now) ==> after_cleanup(diags, now).contains(diags[i]),
        forall|j: int| 0 <= j < after_cleanup(diags, now).len() ==> {
            &&& survives_cleanup(#[trigger] after_cleanup(diags, now)[j], now)
            &&& diags.contains(after_cleanup(diags, now)[j])
        },
        after_cleanup(diags, now).len() <= diags.len(),
{
    let pred = |d: DiagnosticView| survives_cleanup(d, now);
    if survives_cleanup(diags[i], now) {
        diags.lemma_filter_contains(pred, i);
    }
    assert forall|j: int| 0 <= j < after_cleanup(diags, now).len() implies {
        &&& survives_cleanup(#[trigger] after_cleanup(diags, now)[j], now)
        &&& diags.contains(after_cleanup(diags, now)[j])
    } by {
        diags.lemma_filter_pred(pred, j);
        lemma_filter_member(diags, pred, j);
    }
    diags.lemma_filter_len(pred);
}

proof fn lemma_filter_member(s: Seq<DiagnosticView>, pred: spec_fn(DiagnosticView) -> bool, j: int)
    requires
        0 <= j < s.filter(pred).len(),
    ensures
        s.contains(s.filter(pred)[j]),
    decreases s.len(),
{
    reveal(Seq::filter);
    if s.len() > 0 {
        let rest = s.drop_last();
        if pred(s.last()) && j == s.filter(pred).len() - 1 {
            assert(s.filter(pred)[j] == s.last());
            assert(s[s.len() - 1] == s.last());
        } else {
            assert(s.filter(pred)[j] == rest.filter(pred)[j]);
            lemma_filter_member(rest, pred, j);
            let k = choose|k: int| 0 <= k < rest.len() && rest[k] == rest.filter(pred)[j];
            assert(s[k] == rest[k]);
        }
    }
}

/// The health is degraded exactly when some error or critical diagnostic is
/// present, and healthy when neither that nor more than five warnings are.
pub proof fn lemma_health_reflects_counts(warnings: nat, errors: nat)
    ensures
        (health_label(warnings, errors) == "degraded"@) == (errors > 0),
        health_label(warnings, errors) == "healthy"@ ==> errors == 0 && warnings <= 5,
{
    reveal_strlit("degraded");
    reveal_strlit("warning");
    reveal_strlit("healthy");
    assert("degraded"@.len() != "warning"@.len());
    assert("degraded"@.len() != "healthy"@.len());
    assert("warning"@[0] != "healthy"@[0]);
}

} // verus!
