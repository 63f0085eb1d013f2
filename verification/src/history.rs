//! CLI recent-query log: retention, filtering, lookup and the list table. Reading and writing the
//! log file is the host's job; these functions take and return the rows.
use vstd::prelude::*;

use crate::text::{
    ci_contains, contains_ascii_case_insensitive, lemma_ci_contains_concat, join_with_spaces, join_words, lower_ascii_chars,
    lower_seq, owned, pad_center, pad_left, pad_right, parse_usize, push_centered,
    push_left_aligned, push_right_aligned, push_str, spec_parse_usize, str_eq, string_from_chars,
    trim_chars, trim_seq, truncate_field, truncated, u64_to_decimal, decimal,
};
use crate::types::{
    opt_str, strs, AxisSlice, ExecutionHints, OpKind, Operation, OutputHint, OutputHints,
    QueryDocument, WriteHints,
};
use crate::wire_encode::{query_document_to_wire, spec_wire_encodable};

verus! {

broadcast use vstd::string::group_string_axioms;

/// Rows kept on disk by default.
pub const DEFAULT_CLI_QUERY_MAX: usize = 50;

/// Upper bound accepted for a retention override.
pub const HISTORY_MAX_CAP: usize = 10000;

/// CLI query history limits and file naming.
#[derive(Debug)]
pub struct HistorySettings {
    /// Max rows kept on disk (oldest dropped on append).
    pub cli_query_max: usize,
    /// Upper bound for `cli_query_max` when reading an override.
    pub history_max_cap: usize,
    /// File name joined to the platform cache directory.
    pub history_file_name: String,
}

impl Default for HistorySettings {
    fn default() -> (r: Self)
        ensures
            r.cli_query_max == DEFAULT_CLI_QUERY_MAX,
            r.history_max_cap == HISTORY_MAX_CAP,
            r.history_file_name@ == "query_history.jsonl"@,
    {
        HistorySettings {
            cli_query_max: DEFAULT_CLI_QUERY_MAX,
            history_max_cap: HISTORY_MAX_CAP,
            history_file_name: owned("query_history.jsonl"),
        }
    }
}

/// `x` / execute vs `p` / plan-only filter for the history list.
#[derive(Debug, Clone, Copy, PartialEq, Eq, Structural)]
pub enum HistoryExecuteFilter {
    Execute,
    Plan,
}

/// One row of the CLI query history (newest first when listed).
#[derive(Debug)]
pub struct CliQueryHistoryEntry {
    /// Unix seconds (UTC).
    pub at: u64,
    /// `.tet` path when one was given.
    pub tet: Option<String>,
    /// Whether the query was executed (not only planned).
    pub execute: bool,
    /// Validated query document.
    pub query: QueryDocument,
}

/// Optional filters for [`HistorySettings::list`] / [`HistorySettings::get`] (AND semantics).
#[derive(Debug)]
pub struct HistoryListFilter {
    /// Case-insensitive substring on `query.dataset`.
    pub dataset: Option<String>,
    /// Case-insensitive substring on the saved `.tet` path.
    pub tet: Option<String>,
    /// Execute vs plan-only rows.
    pub mode: Option<HistoryExecuteFilter>,
    /// Case-insensitive substring across dataset, tet path, and operation label.
    pub grep: Option<String>,
}

/// Why a history lookup found no row.
#[derive(Debug, Clone, Copy, PartialEq, Eq, Structural)]
pub enum HistoryLookupError {
    /// The index is out of range (indices run from 1 = newest to `have`, the matching rows).
    NotFound { index: usize, have: usize },
}

// ---------------------------------------------------------------------------------------------
// Labels

/// `x` = executed, `p` = plan only.
pub open spec fn spec_mode_label(execute: bool) -> Seq<char> {
    if execute {
        "x"@
    } else {
        "p"@
    }
}

/// `x` = execute, `p` = plan-only (the list's mode column).
pub fn history_entry_mode(execute: bool) -> (r: &'static str)
    ensures
        r@ == spec_mode_label(execute),
{
    if execute {
        "x"
    } else {
        "p"
    }
}

/// Operation column: the operation's wire key, `-` when there is none.
pub open spec fn spec_op_label(op: Option<Operation>) -> Seq<char> {
    match op {
        None => "-"@,
        Some(o) => o.spec_wire_key(),
    }
}

fn operation_label(op: &Option<Operation>) -> (r: &'static str)
    ensures
        r@ == spec_op_label(*op),
{
    match op {
        None => "-",
        Some(o) => o.wire_key(),
    }
}

/// The axis has a step above 1.
pub open spec fn step_above_one(a: AxisSlice) -> bool {
    match a.step {
        Some(st) => st > 1,
        None => false,
    }
}

/// Selection column: `full` without (or with an empty) selection, `strided` when some axis has a
/// step above 1, else `subset`.
pub open spec fn spec_selection_label(sel: Option<Vec<AxisSlice>>) -> Seq<char> {
    match sel {
        None => "full"@,
        Some(v) => if v@.len() == 0 {
            "full"@
        } else if exists|i: int| 0 <= i < v@.len() && step_above_one(#[trigger] v@[i]) {
            "strided"@
        } else {
            "subset"@
        },
    }
}

fn selection_label(sel: &Option<Vec<AxisSlice>>) -> (r: &'static str)
    ensures
        r@ == spec_selection_label(*sel),
{
    match sel {
        None => "full",
        Some(v) => {
            if v.len() == 0 {
                return "full";
            }
            let mut i: usize = 0;
            while i < v.len()
                invariant
                    0 <= i <= v@.len(),
                    v@.len() > 0,
                    *sel is Some && sel->0 == *v,
                    forall|k: int| 0 <= k < i ==> !step_above_one(#[trigger] v@[k]),
                decreases v@.len() - i,
            {
                match v[i].step {
                    Some(st) => if st > 1 {
                        assert(step_above_one(v@[i as int]));
                        return "strided";
                    },
                    None => {},
                }
                i += 1;
            }
            "subset"
        },
    }
}

/// Text of an optional string, empty when absent.
pub open spec fn or_empty(o: Option<String>) -> Seq<char> {
    match o {
        Some(s) => s@,
        None => Seq::empty(),
    }
}

// ---------------------------------------------------------------------------------------------
// Filters

/// Every set predicate of `f` holds for `e`.
pub open spec fn spec_filter_matches(f: HistoryListFilter, e: CliQueryHistoryEntry) -> bool {
    &&& (f.dataset matches Some(d) ==> ci_contains(e.query.dataset@, d@))
    &&& (f.tet matches Some(t) ==> ci_contains(or_empty(e.tet), t@))
    &&& (f.mode == Some(HistoryExecuteFilter::Execute) ==> e.execute)
    &&& (f.mode == Some(HistoryExecuteFilter::Plan) ==> !e.execute)
    &&& (f.grep matches Some(g) ==> ci_contains(
        e.query.dataset@ + " "@ + or_empty(e.tet) + " "@ + spec_op_label(e.query.operation),
        g@,
    ))
}

/// A `grep` needle found (ignoring ASCII case) in an entry's dataset name, its `.tet` path or its
/// operation label is satisfied: the entry then matches exactly when the filter's other
/// predicates hold.
pub proof fn lemma_grep_finds_entry_fields(f: HistoryListFilter, e: CliQueryHistoryEntry, g: String)
    requires
        f.grep == Some(g),
        ci_contains(e.query.dataset@, g@) || ci_contains(or_empty(e.tet), g@) || ci_contains(
            spec_op_label(e.query.operation),
            g@,
        ),
    ensures
        spec_filter_matches(f, e) == spec_filter_matches(
            HistoryListFilter { dataset: f.dataset, tet: f.tet, mode: f.mode, grep: None },
            e,
        ),
{
    let a = e.query.dataset@;
    let t = or_empty(e.tet);
    let o = spec_op_label(e.query.operation);
    if ci_contains(a, g@) {
        lemma_ci_contains_concat(a, " "@, g@);
        lemma_ci_contains_concat(a + " "@, t, g@);
        lemma_ci_contains_concat(a + " "@ + t, " "@, g@);
        lemma_ci_contains_concat(a + " "@ + t + " "@, o, g@);
    } else if ci_contains(t, g@) {
        lemma_ci_contains_concat(a + " "@, t, g@);
        lemma_ci_contains_concat(a + " "@ + t, " "@, g@);
        lemma_ci_contains_concat(a + " "@ + t + " "@, o, g@);
    } else {
        lemma_ci_contains_concat(a + " "@ + t + " "@, o, g@);
    }
}

pub open spec fn spec_summary_parts(f: HistoryListFilter) -> Seq<Seq<char>> {
    let a: Seq<Seq<char>> = match f.dataset {
        Some(d) => seq!["dataset~"@ + d@],
        None => Seq::empty(),
    };
    let b: Seq<Seq<char>> = match f.tet {
        Some(t) => seq!["tet~"@ + t@],
        None => Seq::empty(),
    };
    let c: Seq<Seq<char>> = match f.mode {
        Some(m) => seq!["mode="@ + spec_mode_label(m == HistoryExecuteFilter::Execute)],
        None => Seq::empty(),
    };
    let d: Seq<Seq<char>> = match f.grep {
        Some(g) => seq!["grep~"@ + g@],
        None => Seq::empty(),
    };
    a + b + c + d
}

fn concat_owned(a: &str, b: &str) -> (r: String)
    ensures
        r@ == a@ + b@,
{
    let mut out = owned(a);
    push_str(&mut out, b);
    out
}

impl HistoryListFilter {
    /// True when every set predicate matches `entry`.
    pub fn matches(&self, entry: &CliQueryHistoryEntry) -> (r: bool)
        ensures
            r == spec_filter_matches(*self, *entry),
    {
        match &self.dataset {
            Some(needle) => {
                if !contains_ascii_case_insensitive(entry.query.dataset.as_str(), needle.as_str()) {
                    return false;
                }
            },
            None => {},
        }
        match &self.tet {
            Some(needle) => {
                let hay: &str = match &entry.tet {
                    Some(t) => t.as_str(),
                    None => "",
                };
                proof {
                    reveal_strlit("");
                }
                if !contains_ascii_case_insensitive(hay, needle.as_str()) {
                    return false;
                }
            },
            None => {},
        }
        match self.mode {
            Some(HistoryExecuteFilter::Execute) => {
                if !entry.execute {
                    return false;
                }
            },
            Some(HistoryExecuteFilter::Plan) => {
                if entry.execute {
                    return false;
                }
            },
            None => {},
        }
        match &self.grep {
            Some(needle) => {
                let mut hay = owned(entry.query.dataset.as_str());
                push_str(&mut hay, " ");
                match &entry.tet {
                    Some(t) => push_str(&mut hay, t.as_str()),
                    None => {},
                }
                push_str(&mut hay, " ");
                push_str(&mut hay, operation_label(&entry.query.operation));
                proof {
                    assert(hay@ =~= entry.query.dataset@ + " "@ + or_empty(entry.tet) + " "@
                        + spec_op_label(entry.query.operation));
                }
                if !contains_ascii_case_insensitive(hay.as_str(), needle.as_str()) {
                    return false;
                }
            },
            None => {},
        }
        true
    }

    /// Human summary for list headers (empty when no predicates).
    pub fn summary(&self) -> (r: String)
        ensures
            r@ == join_words(spec_summary_parts(*self)),
    {
        let mut parts: Vec<String> = Vec::new();
        match &self.dataset {
            Some(d) => parts.push(concat_owned("dataset~", d.as_str())),
            None => {},
        }
        match &self.tet {
            Some(t) => parts.push(concat_owned("tet~", t.as_str())),
            None => {},
        }
        match self.mode {
            Some(m) => {
                let execute = m == HistoryExecuteFilter::Execute;
                parts.push(concat_owned("mode=", history_entry_mode(execute)));
            },
            None => {},
        }
        match &self.grep {
            Some(g) => parts.push(concat_owned("grep~", g.as_str())),
            None => {},
        }
        proof {
            assert(strs(parts@) =~= spec_summary_parts(*self));
        }
        join_with_spaces(&parts)
    }

    /// True when no filter fields are set.
    pub fn is_empty(&self) -> (r: bool)
        ensures
            r == (self.dataset is None && self.tet is None && self.mode is None
                && self.grep is None),
    {
        self.dataset.is_none() && self.tet.is_none() && self.mode.is_none() && self.grep.is_none()
    }
}

/// `--mode` value after trimming and ASCII lowercasing: `x` / `execute` or `p` / `plan`.
pub open spec fn spec_execute_filter(s: Seq<char>) -> Option<HistoryExecuteFilter> {
    let t = lower_seq(trim_seq(s));
    if t == "x"@ || t == "execute"@ {
        Some(HistoryExecuteFilter::Execute)
    } else if t == "p"@ || t == "plan"@ {
        Some(HistoryExecuteFilter::Plan)
    } else {
        None
    }
}

/// Parse `x`, `execute`, `p`, or `plan` for `--mode` (surrounding whitespace and ASCII case
/// ignored); other text gives an error message.
pub fn parse_history_execute_filter(s: &str) -> (r: Result<HistoryExecuteFilter, String>)
    ensures
        r is Ok <==> spec_execute_filter(s@) is Some,
        r matches Ok(m) ==> spec_execute_filter(s@) == Some(m),
{
    let t = string_from_chars(&lower_ascii_chars(&trim_chars(s)));
    let ts = t.as_str();
    if str_eq(ts, "x") || str_eq(ts, "execute") {
        Ok(HistoryExecuteFilter::Execute)
    } else if str_eq(ts, "p") || str_eq(ts, "plan") {
        Ok(HistoryExecuteFilter::Plan)
    } else {
        let mut msg = owned("unknown history mode ");
        push_str(&mut msg, ts);
        push_str(&mut msg, "; expected x, execute, p, or plan");
        Err(msg)
    }
}


// ---------------------------------------------------------------------------------------------
// Listing and lookup

/// Whether `e` passes an optional filter.
pub open spec fn spec_passes_ref(f: Option<&HistoryListFilter>, e: CliQueryHistoryEntry) -> bool {
    match f {
        Some(f) => spec_filter_matches(*f, e),
        None => true,
    }
}

/// Rows of an oldest-first log that pass the filter, newest first.
pub open spec fn newest_matching(s: Seq<CliQueryHistoryEntry>, f: Option<&HistoryListFilter>) -> Seq<
    CliQueryHistoryEntry,
>
    decreases s.len(),
{
    if s.len() == 0 {
        Seq::empty()
    } else {
        let rest = newest_matching(s.drop_last(), f);
        if spec_passes_ref(f, s.last()) {
            seq![s.last()] + rest
        } else {
            rest
        }
    }
}

/// What [`HistorySettings::list`] shows: every matching row newest first, or at most `limit` of
/// them.
pub open spec fn spec_list(
    stored: Seq<CliQueryHistoryEntry>,
    limit: usize,
    all: bool,
    f: Option<&HistoryListFilter>,
) -> Seq<CliQueryHistoryEntry> {
    let m = newest_matching(stored, f);
    if all || limit >= m.len() {
        m
    } else {
        m.take(limit as int)
    }
}

/// Scanning one older row extends the newest-first list at its end.
proof fn lemma_newest_matching_prepend(x: CliQueryHistoryEntry, p: Seq<CliQueryHistoryEntry>, f: Option<
    &HistoryListFilter,
>)
    ensures
        newest_matching(seq![x] + p, f) == newest_matching(p, f) + (if spec_passes_ref(f, x) {
            seq![x]
        } else {
            Seq::empty()
        }),
    decreases p.len(),
{
    let cx: Seq<CliQueryHistoryEntry> = if spec_passes_ref(f, x) {
        seq![x]
    } else {
        Seq::empty()
    };
    if p.len() == 0 {
        assert((seq![x] + p).drop_last() =~= Seq::<CliQueryHistoryEntry>::empty());
        assert(seq![x] + p =~= seq![x]);
        assert(newest_matching(seq![x], f) =~= cx + newest_matching(
            Seq::<CliQueryHistoryEntry>::empty(),
            f,
        ));
        assert(newest_matching(seq![x], f) =~= newest_matching(p, f) + cx);
    } else {
        let q = seq![x] + p;
        assert(q.drop_last() =~= seq![x] + p.drop_last());
        assert(q.last() == p.last());
        lemma_newest_matching_prepend(x, p.drop_last(), f);
        let cl: Seq<CliQueryHistoryEntry> = if spec_passes_ref(f, p.last()) {
            seq![p.last()]
        } else {
            Seq::empty()
        };
        assert(newest_matching(q, f) =~= cl + newest_matching(q.drop_last(), f));
        assert(newest_matching(p, f) =~= cl + newest_matching(p.drop_last(), f));
        assert(newest_matching(q, f) =~= newest_matching(p, f) + cx);
    }
}

/// Newest-first matching rows of an oldest-first log, consuming it.
fn newest_first_matching(stored: Vec<CliQueryHistoryEntry>, filter: Option<&HistoryListFilter>) -> (r:
    Vec<CliQueryHistoryEntry>)
    ensures
        r@ == newest_matching(stored@, filter),
{
    let ghost all = stored@;
    let mut rest = stored;
    let mut out: Vec<CliQueryHistoryEntry> = Vec::new();
    while rest.len() > 0
        invariant
            rest@.len() <= all.len(),
            rest@ == all.subrange(0, rest@.len() as int),
            out@ == newest_matching(all.subrange(rest@.len() as int, all.len() as int), filter),
        decreases rest@.len(),
    {
        let ghost k = rest@.len();
        let e = rest.pop().unwrap();
        proof {
            let p = all.subrange(k as int, all.len() as int);
            assert(all.subrange(k - 1, all.len() as int) =~= seq![e] + p);
            lemma_newest_matching_prepend(e, p, filter);
        }
        let keep = match filter {
            Some(f) => f.matches(&e),
            None => true,
        };
        if keep {
            out.push(e);
        }
    }
    assert(all.subrange(0, all.len() as int) =~= all);
    out
}

// ---------------------------------------------------------------------------------------------
// Same query

fn same_strings(a: &Vec<String>, b: &Vec<String>) -> (r: bool)
    ensures
        r == (strs(a@) == strs(b@)),
{
    if a.len() != b.len() {
        assert(strs(a@).len() != strs(b@).len());
        return false;
    }
    let mut i: usize = 0;
    while i < a.len()
        invariant
            a@.len() == b@.len(),
            0 <= i <= a@.len(),
            forall|k: int| 0 <= k < i ==> a@[k]@ == b@[k]@,
        decreases a@.len() - i,
    {
        if !str_eq(a[i].as_str(), b[i].as_str()) {
            assert(strs(a@)[i as int] != strs(b@)[i as int]);
            return false;
        }
        i += 1;
    }
    assert(strs(a@) =~= strs(b@));
    true
}

fn same_opt_string(a: &Option<String>, b: &Option<String>) -> (r: bool)
    ensures
        r == (opt_str(*a) == opt_str(*b)),
{
    match (a, b) {
        (Some(x), Some(y)) => str_eq(x.as_str(), y.as_str()),
        (None, None) => true,
        _ => false,
    }
}

fn same_opt_u64(a: Option<u64>, b: Option<u64>) -> (r: bool)
    ensures
        r == (a == b),
{
    match (a, b) {
        (Some(x), Some(y)) => x == y,
        (None, None) => true,
        _ => false,
    }
}

/// Kind of an operation.
fn operation_kind(op: &Operation) -> (r: OpKind)
    ensures
        r == op@.kind,
{
    match op {
        Operation::Sum { .. } => OpKind::Sum,
        Operation::Mean { .. } => OpKind::Mean,
        Operation::Min { .. } => OpKind::Min,
        Operation::Max { .. } => OpKind::Max,
        Operation::Count { .. } => OpKind::Count,
        Operation::Var { .. } => OpKind::Var,
        Operation::Std { .. } => OpKind::Std,
        Operation::Product { .. } => OpKind::Product,
        Operation::NormL1 { .. } => OpKind::NormL1,
        Operation::NormL2 { .. } => OpKind::NormL2,
        Operation::AllFinite { .. } => OpKind::AllFinite,
        Operation::AnyNan { .. } => OpKind::AnyNan,
        Operation::AnyInf { .. } => OpKind::AnyInf,
        Operation::ArgMin { .. } => OpKind::ArgMin,
        Operation::ArgMax { .. } => OpKind::ArgMax,
        Operation::Median { .. } => OpKind::Median,
        Operation::NanMean { .. } => OpKind::NanMean,
        Operation::NanStd { .. } => OpKind::NanStd,
        Operation::Quantile { .. } => OpKind::Quantile,
        Operation::Histogram { .. } => OpKind::Histogram,
        Operation::NanCount { .. } => OpKind::NanCount,
        Operation::InfCount { .. } => OpKind::InfCount,
        Operation::NullCount { .. } => OpKind::NullCount,
        Operation::Covariance { .. } => OpKind::Covariance,
        Operation::Correlation { .. } => OpKind::Correlation,
        Operation::Transform { .. } => OpKind::Transform,
    }
}

fn same_operation(a: &Operation, b: &Operation) -> (r: bool)
    ensures
        r == (a@ == b@),
{
    if operation_kind(a) != operation_kind(b) {
        return false;
    }
    if !same_strings(a.axes(), b.axes()) {
        return false;
    }
    assert(a@.axes == strs(a.spec_axes()) && b@.axes == strs(b.spec_axes()));
    match (a, b) {
        (Operation::Quantile { q: x, .. }, Operation::Quantile { q: y, .. }) => *x == *y,
        (
            Operation::Histogram { bins: b1, min: n1, max: x1, .. },
            Operation::Histogram { bins: b2, min: n2, max: x2, .. },
        ) => *b1 == *b2 && same_opt_u64(*n1, *n2) && same_opt_u64(*x1, *x2),
        (Operation::NullCount { fill: f1, .. }, Operation::NullCount { fill: f2, .. }) => same_opt_u64(
            *f1,
            *f2,
        ),
        (Operation::Transform { method: m1, .. }, Operation::Transform { method: m2, .. }) => *m1
            == *m2,
        _ => true,
    }
}

fn same_selection(a: &Vec<AxisSlice>, b: &Vec<AxisSlice>) -> (r: bool)
    ensures
        r == (a@.map_values(|x: AxisSlice| x@) == b@.map_values(|x: AxisSlice| x@)),
{
    let ghost va = a@.map_values(|x: AxisSlice| x@);
    let ghost vb = b@.map_values(|x: AxisSlice| x@);
    if a.len() != b.len() {
        assert(va.len() != vb.len());
        return false;
    }
    let mut i: usize = 0;
    while i < a.len()
        invariant
            a@.len() == b@.len(),
            va == a@.map_values(|x: AxisSlice| x@),
            vb == b@.map_values(|x: AxisSlice| x@),
            0 <= i <= a@.len(),
            forall|k: int| 0 <= k < i ==> a@[k]@ == b@[k]@,
        decreases a@.len() - i,
    {
        let x = &a[i];
        let y = &b[i];
        let same = same_opt_u64(x.start, y.start) && same_opt_u64(x.stop, y.stop) && same_opt_u64(
            x.step,
            y.step,
        ) && same_opt_string(&x.start_label, &y.start_label) && same_opt_string(
            &x.stop_label,
            &y.stop_label,
        );
        if !same {
            assert(va[i as int] != vb[i as int]);
            return false;
        }
        i += 1;
    }
    assert(va =~= vb);
    true
}

fn same_output(a: &OutputHints, b: &OutputHints) -> (r: bool)
    ensures
        r == (a@ == b@),
{
    match (&a.preferred, &b.preferred) {
        (Some(OutputHint::InlineJson), Some(OutputHint::InlineJson)) => true,
        (Some(OutputHint::SpillArray { handle: x }), Some(OutputHint::SpillArray { handle: y })) => {
            str_eq(x.as_str(), y.as_str())
        },
        (None, None) => true,
        _ => false,
    }
}

fn same_write(a: &WriteHints, b: &WriteHints) -> (r: bool)
    ensures
        r == (a@ == b@),
{
    a.target == b.target && same_opt_string(&a.path, &b.path)
}

fn same_execution(a: &ExecutionHints, b: &ExecutionHints) -> (r: bool)
    ensures
        r == (*a == *b),
{
    same_opt_u64(a.memory_budget_bytes, b.memory_budget_bytes) && match (
        a.memory_budget_percent_bps,
        b.memory_budget_percent_bps,
    ) {
        (Some(x), Some(y)) => x == y,
        (None, None) => true,
        _ => false,
    } && match (a.fold_parallel, b.fold_parallel) {
        (Some(x), Some(y)) => x == y,
        (None, None) => true,
        _ => false,
    } && match (a.device, b.device) {
        (Some(x), Some(y)) => x == y,
        (None, None) => true,
        _ => false,
    }
}

/// Whether two recorded queries count as the same query: both documents can be written in the
/// wire format and they are equal.
pub fn history_queries_equal(a: &QueryDocument, b: &QueryDocument) -> (r: bool)
    ensures
        r == (spec_wire_encodable(a@) && spec_wire_encodable(b@) && a@ == b@),
{
    if query_document_to_wire(a).is_err() || query_document_to_wire(b).is_err() {
        return false;
    }
    if a.layout_version != b.layout_version || !str_eq(a.dataset.as_str(), b.dataset.as_str()) {
        return false;
    }
    let sel = match (&a.selection, &b.selection) {
        (Some(x), Some(y)) => same_selection(x, y),
        (None, None) => true,
        _ => false,
    };
    let op = match (&a.operation, &b.operation) {
        (Some(x), Some(y)) => same_operation(x, y),
        (None, None) => true,
        _ => false,
    };
    let out = match (&a.output, &b.output) {
        (Some(x), Some(y)) => same_output(x, y),
        (None, None) => true,
        _ => false,
    };
    let wr = match (&a.write, &b.write) {
        (Some(x), Some(y)) => same_write(x, y),
        (None, None) => true,
        _ => false,
    };
    let ex = match (&a.execution, &b.execution) {
        (Some(x), Some(y)) => same_execution(x, y),
        (None, None) => true,
        _ => false,
    };
    sel && op && out && wr && ex
}

/// Values of the opt-out setting (`TET_NO_QUERY_HISTORY`) that turn recording off: `1` and
/// `true`; any other value leaves recording on.
pub open spec fn spec_history_opt_out(v: Seq<char>) -> bool {
    v == "1"@ || v == "true"@
}

/// Whether queries are recorded, given the opt-out setting's value when it is set.
pub fn history_recording_enabled(opt_out: Option<&str>) -> (r: bool)
    ensures
        r == !(opt_out matches Some(v) && spec_history_opt_out(v@)),
{
    match opt_out {
        Some(v) => !(str_eq(v, "1") || str_eq(v, "true")),
        None => true,
    }
}

impl HistorySettings {
    /// Settings with the retention override `raw` applied when it parses (after trimming) to a
    /// count in `1..=`[`HISTORY_MAX_CAP`].
    pub fn with_max_override(raw: Option<&str>) -> (r: Self)
        ensures
            r.history_max_cap == HISTORY_MAX_CAP,
            r.history_file_name@ == "query_history.jsonl"@,
            r.cli_query_max == match raw {
                Some(t) => match spec_parse_usize(trim_seq(t@)) {
                    Some(n) => if 1 <= n <= HISTORY_MAX_CAP {
                        n
                    } else {
                        DEFAULT_CLI_QUERY_MAX
                    },
                    None => DEFAULT_CLI_QUERY_MAX,
                },
                None => DEFAULT_CLI_QUERY_MAX,
            },
    {
        let mut settings = HistorySettings::default();
        match raw {
            Some(t) => {
                let trimmed = string_from_chars(&trim_chars(t));
                match parse_usize(trimmed.as_str()) {
                    Some(n) => {
                        if 1 <= n && n <= settings.history_max_cap {
                            settings.cli_query_max = n;
                        }
                    },
                    None => {},
                }
            },
            None => {},
        }
        settings
    }

    /// Recent rows of an oldest-first log, newest first: all matching rows when `all`, else at
    /// most `limit` of them.
    pub fn list(
        &self,
        stored: Vec<CliQueryHistoryEntry>,
        limit: usize,
        all: bool,
        filter: Option<&HistoryListFilter>,
    ) -> (r: Vec<CliQueryHistoryEntry>)
        ensures
            r@ == spec_list(stored@, limit, all, filter),
    {
        let mut entries = newest_first_matching(stored, filter);
        if !all {
            entries.truncate(limit);
        }
        entries
    }

    /// Row number `index` (**1** = newest) among the rows [`Self::list`] shows with the same
    /// filter; any index out of range (0 among them) is `NotFound`.
    pub fn get(
        &self,
        stored: Vec<CliQueryHistoryEntry>,
        index: usize,
        filter: Option<&HistoryListFilter>,
    ) -> (r: Result<CliQueryHistoryEntry, HistoryLookupError>)
        ensures
            1 <= index <= newest_matching(stored@, filter).len() ==> r == Ok::<
                _,
                HistoryLookupError,
            >(newest_matching(stored@, filter)[index - 1]),
            !(1 <= index <= newest_matching(stored@, filter).len()) ==> r == Err::<
                CliQueryHistoryEntry,
                _,
            >(
                HistoryLookupError::NotFound {
                    index,
                    have: newest_matching(stored@, filter).len() as usize,
                },
            ),
    {
        let mut entries = self.list(stored, usize::MAX, true, filter);
        let have = entries.len();
        if index == 0 || index > have {
            return Err(HistoryLookupError::NotFound { index, have });
        }
        Ok(entries.remove(index - 1))
    }

    /// Records `entry` at the end of an oldest-first log: when the newest row has the same
    /// `.tet` path and execute flag and `same_query_as_newest` says its query is the same, only
    /// that row's timestamp moves; otherwise the row is appended and the oldest rows beyond
    /// [`Self::cli_query_max`] are dropped.
    pub fn append(
        &self,
        entries: &mut Vec<CliQueryHistoryEntry>,
        entry: CliQueryHistoryEntry,
        same_query_as_newest: bool,
    )
        ensures
            final(entries)@ == spec_record(
                old(entries)@,
                entry,
                same_query_as_newest,
                self.cli_query_max as nat,
            ),
    {
        let n = entries.len();
        if n > 0 {
            let dup = same_query_as_newest && opt_str_eq(&entries[n - 1].tet, &entry.tet)
                && entries[n - 1].execute == entry.execute;
            if dup {
                let mut last = match entries.pop() {
                    Some(x) => x,
                    None => {
                        return;
                    },
                };
                last.at = entry.at;
                entries.push(last);
                return;
            }
        }
        entries.push(entry);
        if entries.len() > self.cli_query_max {
            let drop = entries.len() - self.cli_query_max;
            let tail = entries.split_off(drop);
            *entries = tail;
        }
    }
}

fn opt_str_eq(a: &Option<String>, b: &Option<String>) -> (r: bool)
    ensures
        r == (crate::types::opt_str(*a) == crate::types::opt_str(*b)),
{
    match (a, b) {
        (Some(x), Some(y)) => str_eq(x.as_str(), y.as_str()),
        (None, None) => true,
        _ => false,
    }
}

/// Same `.tet` path and execute flag as the newest row, and the same query.
pub open spec fn spec_repeats_newest(
    newest: CliQueryHistoryEntry,
    e: CliQueryHistoryEntry,
    same_query: bool,
) -> bool {
    same_query && crate::types::opt_str(newest.tet) == crate::types::opt_str(e.tet)
        && newest.execute == e.execute
}

/// The log after recording `e` (see [`HistorySettings::append`]).
pub open spec fn spec_record(
    old: Seq<CliQueryHistoryEntry>,
    e: CliQueryHistoryEntry,
    same_query: bool,
    max: nat,
) -> Seq<CliQueryHistoryEntry> {
    if old.len() > 0 && spec_repeats_newest(old.last(), e, same_query) {
        old.update(old.len() - 1, CliQueryHistoryEntry { at: e.at, ..old.last() })
    } else {
        let p = old.push(e);
        if p.len() > max {
            p.subrange(p.len() - max, p.len() as int)
        } else {
            p
        }
    }
}

/// Recording keeps the log within the retention cap when it already was, and the newest row
/// always carries the new timestamp.
pub proof fn lemma_record_bounded(
    old: Seq<CliQueryHistoryEntry>,
    e: CliQueryHistoryEntry,
    same_query: bool,
    max: nat,
)
    requires
        1 <= max,
        old.len() <= max,
    ensures
        spec_record(old, e, same_query, max).len() <= max,
        spec_record(old, e, same_query, max).len() >= 1,
        spec_record(old, e, same_query, max).last().at == e.at,
{
}

/// A new row (not a repeat of the newest) becomes the newest row and the older rows keep their
/// order.
pub proof fn lemma_record_appends(
    old: Seq<CliQueryHistoryEntry>,
    e: CliQueryHistoryEntry,
    same_query: bool,
    max: nat,
)
    requires
        1 <= max,
        !(old.len() > 0 && spec_repeats_newest(old.last(), e, same_query)),
    ensures
        spec_record(old, e, same_query, max).last() == e,
        spec_record(old, e, same_query, max).drop_last() =~= (if old.len() + 1 > max {
            old.subrange(old.len() + 1 - max, old.len() as int)
        } else {
            old
        }),
{
}

/// Looking a row up gives the row at that place of the full list.
pub proof fn lemma_get_matches_list(
    stored: Seq<CliQueryHistoryEntry>,
    f: Option<&HistoryListFilter>,
    index: usize,
)
    requires
        1 <= index <= newest_matching(stored, f).len(),
    ensures
        spec_list(stored, usize::MAX, true, f)[index - 1] == newest_matching(stored, f)[index - 1],
{
}


// ---------------------------------------------------------------------------------------------
// List table

/// The final path component `std::path::Path::file_name` reports for a path string, as text.
pub uninterp spec fn path_file_name(path: Seq<char>) -> Option<Seq<char>>;

/// `Path::new(path).file_name()` as UTF-8 text.
///
/// Claims only that the result is [`path_file_name`] of the path; which component that is
/// follows `Path::file_name` and is not stated here.
#[verifier::external_body]
fn file_name_text(path: &str) -> (r: Option<String>)
    ensures
        match r {
            Some(n) => path_file_name(path@) == Some(n@),
            None => path_file_name(path@) is None,
        },
{
    match std::path::Path::new(path).file_name() {
        Some(name) => match name.to_str() {
            Some(t) => Some(t.to_owned()),
            None => None,
        },
        None => None,
    }
}

/// `tet` column: the file name of the saved path (the whole path when it has none), `-` when
/// no path was saved.
pub open spec fn spec_tet_column(tet: Option<String>) -> Seq<char> {
    match tet {
        None => "-"@,
        Some(p) => match path_file_name(p@) {
            Some(n) => n,
            None => p@,
        },
    }
}

/// One table row for entry number `n` (1-based).
pub open spec fn spec_history_row(n: nat, e: CliQueryHistoryEntry) -> Seq<char> {
    pad_left(decimal(n), 3) + "  "@ + pad_center(spec_mode_label(e.execute), 4) + "  "@ + pad_right(
        truncated(e.query.dataset@, 18),
        18,
    ) + "  "@ + pad_right(spec_op_label(e.query.operation), 10) + "  "@ + pad_right(
        spec_selection_label(e.query.selection),
        8,
    ) + "  "@ + spec_tet_column(e.tet) + "\n"@
}

/// Rows for `entries`, numbered from 1.
pub open spec fn spec_history_rows(entries: Seq<CliQueryHistoryEntry>) -> Seq<char>
    decreases entries.len(),
{
    if entries.len() == 0 {
        Seq::empty()
    } else {
        spec_history_rows(entries.drop_last()) + spec_history_row(entries.len(), entries.last())
    }
}

pub open spec fn filter_is_set(f: Option<&HistoryListFilter>) -> bool {
    match f {
        Some(f) => !(f.dataset is None && f.tet is None && f.mode is None && f.grep is None),
        None => false,
    }
}

pub open spec fn spec_history_header(
    count: nat,
    path: Option<&str>,
    keep: nat,
    filter: Option<&HistoryListFilter>,
) -> Seq<char> {
    (match path {
        Some(p) => "file: "@ + p@ + "\n"@,
        None => Seq::empty(),
    }) + "shown: "@ + decimal(count) + "  keep: "@ + decimal(keep) + " on disk\n"@ + (if filter_is_set(
        filter,
    ) {
        "filter: "@ + join_words(spec_summary_parts(*filter->0)) + "\n"@
    } else {
        Seq::empty()
    })
}

/// Column titles of the list table.
pub open spec fn spec_history_titles() -> Seq<char> {
    pad_left("#"@, 3) + "  "@ + pad_center("mode"@, 4) + "  "@ + pad_right("dataset"@, 18) + "  "@
        + pad_right("op"@, 10) + "  "@ + pad_right("select"@, 8) + "  tet\n"@
}

/// The full `qhist list` text.
pub open spec fn spec_history_text(
    entries: Seq<CliQueryHistoryEntry>,
    path: Option<&str>,
    keep: nat,
    filter: Option<&HistoryListFilter>,
) -> Seq<char> {
    let head = spec_history_header(entries.len(), path, keep, filter);
    if entries.len() == 0 {
        head + (if filter_is_set(filter) {
            "(no rows match filter)\n"@
        } else {
            "(empty \u{2014} run `tet query \u{2026} -t file.tet -x` to record)\n"@
        })
    } else {
        head + "\n"@ + spec_history_titles() + spec_history_rows(entries) + "\n"@
            + "mode: x = had -x (execute), p = plan only (no -x)\n"@
            + "replay: tet qhist run <#>  (1 = newest)\n"@
    }
}

fn history_row(n: usize, e: &CliQueryHistoryEntry) -> (r: String)
    ensures
        r@ == spec_history_row(n as nat, *e),
{
    let mut row = String::new();
    let num = u64_to_decimal(n as u64);
    push_right_aligned(&mut row, num.as_str(), 3);
    assert(row@ =~= pad_left(decimal(n as nat), 3));
    push_str(&mut row, "  ");
    let mode = history_entry_mode(e.execute);
    push_centered(&mut row, mode, 4);
    push_str(&mut row, "  ");
    let ds = truncate_field(e.query.dataset.as_str(), 18);
    push_left_aligned(&mut row, ds.as_str(), 18);
    push_str(&mut row, "  ");
    let op = operation_label(&e.query.operation);
    push_left_aligned(&mut row, op, 10);
    push_str(&mut row, "  ");
    let sel = selection_label(&e.query.selection);
    push_left_aligned(&mut row, sel, 8);
    push_str(&mut row, "  ");
    let tet = tet_column(&e.tet);
    push_str(&mut row, tet.as_str());
    push_str(&mut row, "\n");
    row
}

fn tet_column(tet: &Option<String>) -> (r: String)
    ensures
        r@ == spec_tet_column(*tet),
{
    match tet {
        None => owned("-"),
        Some(p) => match file_name_text(p.as_str()) {
            Some(name) => name,
            None => owned(p.as_str()),
        },
    }
}

/// Compact table for the history list (human default).
pub fn format_history_list_text(
    entries: &Vec<CliQueryHistoryEntry>,
    path: Option<&str>,
    settings: &HistorySettings,
    filter: Option<&HistoryListFilter>,
) -> (r: String)
    ensures
        r@ == spec_history_text(entries@, path, settings.cli_query_max as nat, filter),
{
    let mut out = String::new();
    match path {
        Some(p) => {
            push_str(&mut out, "file: ");
            push_str(&mut out, p);
            push_str(&mut out, "\n");
        },
        None => {},
    }
    push_str(&mut out, "shown: ");
    push_str(&mut out, u64_to_decimal(entries.len() as u64).as_str());
    push_str(&mut out, "  keep: ");
    push_str(&mut out, u64_to_decimal(settings.cli_query_max as u64).as_str());
    push_str(&mut out, " on disk\n");
    let set = match filter {
        Some(f) => !f.is_empty(),
        None => false,
    };
    if set {
        match filter {
            Some(f) => {
                push_str(&mut out, "filter: ");
                push_str(&mut out, f.summary().as_str());
                push_str(&mut out, "\n");
            },
            None => {},
        }
    }
    assert(out@ =~= spec_history_header(entries@.len(), path, settings.cli_query_max as nat, filter));
    if entries.len() == 0 {
        if set {
            push_str(&mut out, "(no rows match filter)\n");
        } else {
            push_str(&mut out, "(empty \u{2014} run `tet query \u{2026} -t file.tet -x` to record)\n");
        }
        return out;
    }
    let ghost head = out@;
    push_str(&mut out, "\n");
    push_right_aligned(&mut out, "#", 3);
    push_str(&mut out, "  ");
    push_centered(&mut out, "mode", 4);
    push_str(&mut out, "  ");
    push_left_aligned(&mut out, "dataset", 18);
    push_str(&mut out, "  ");
    push_left_aligned(&mut out, "op", 10);
    push_str(&mut out, "  ");
    push_left_aligned(&mut out, "select", 8);
    push_str(&mut out, "  tet\n");
    assert(out@ =~= head + "\n"@ + spec_history_titles());
    let ghost before_rows = out@;
    let mut i: usize = 0;
    while i < entries.len()
        invariant
            0 <= i <= entries@.len(),
            out@ == before_rows + spec_history_rows(entries@.take(i as int)),
        decreases entries@.len() - i,
    {
        proof {
            assert(entries@.take(i + 1).drop_last() =~= entries@.take(i as int));
        }
        let row = history_row(i + 1, &entries[i]);
        push_str(&mut out, row.as_str());
        proof {
            assert(out@ =~= before_rows + spec_history_rows(entries@.take(i + 1)));
        }
        i += 1;
    }
    assert(entries@.take(entries@.len() as int) =~= entries@);
    push_str(&mut out, "\n");
    push_str(&mut out, "mode: x = had -x (execute), p = plan only (no -x)\n");
    push_str(&mut out, "replay: tet qhist run <#>  (1 = newest)\n");
    assert(out@ =~= spec_history_text(entries@, path, settings.cli_query_max as nat, filter));
    out
}

} // verus!
