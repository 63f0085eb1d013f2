//! The `.tet` catalog report: a one-line summary and the multi-section text (layout, file
//! execution defaults, dataset table with footer metadata, chunk table, history).
use vstd::prelude::*;

use crate::info::{
    dtype_label, opt_meta_ref, spec_dtype_label, spec_grep_haystack, spec_info_summary_parts,
    DatasetListing,
    DatasetMetadata, InfoListFilter, InfoMetadataDisplay, InfoViewSections,
    INFO_METADATA_VERBOSE_LABELS,
};
use crate::query_output::bool_text;
use crate::text::{
    ci_contains, decimal, decimal_strings, decimals, join_prefix, join_strings, join_with,
    join_words, owned, pad_left, pad_right, push_decimal, push_left_aligned, push_right_aligned,
    push_str, str_eq, truncate_field, truncated, u64_to_decimal,
};
use crate::types::{strs, CODEC_RAW, CODEC_ZSTD};

verus! {

broadcast use vstd::string::group_string_axioms;

/// Superblock flag bit: the file ends with a history footer.
pub const SUPERBLOCK_FLAG_HISTORY_FOOTER: u32 = 1;

/// The superblock fields a report shows.
#[derive(Debug)]
pub struct Superblock {
    pub layout_version: u32,
    pub dataset_count: u64,
    pub flags: u32,
    pub chunk_index_offset: u64,
    pub chunk_index_length: u64,
}

/// One chunk index entry.
#[derive(Debug)]
pub struct ChunkIndexEntry {
    /// Position of the owning dataset in the catalog.
    pub dataset_id: u64,
    /// Chunk coordinates (at least the dataset's rank of them).
    pub chunk_index: Vec<u64>,
    pub raw_byte_len: u64,
    pub stored_byte_len: u64,
    pub codec: u32,
    pub payload_offset: u64,
}

/// File-level execution defaults (`0` means unset).
#[derive(Debug, Clone, Copy)]
pub struct FileExecutionSettings {
    pub memory_budget_bytes: u64,
    pub memory_budget_percent_bps: u16,
}

/// One history event: what happened, in which format, and when (Unix seconds).
#[derive(Debug)]
pub struct HistoryEvent {
    pub kind: String,
    pub format: String,
    pub at: u64,
}

/// File-level footer metadata.
#[derive(Debug)]
pub struct FileMetadata {
    pub tool: Option<String>,
    pub library_version: Option<String>,
    pub created_at: Option<String>,
}

/// Footer metadata: the file entry and the per-dataset entries keyed by dataset name, in key
/// order.
#[derive(Debug)]
pub struct CatalogMetadata {
    pub file: Option<FileMetadata>,
    pub datasets: Vec<(String, DatasetMetadata)>,
}

/// What a `.tet` catalog read gives: superblock, datasets, chunk index, execution defaults,
/// history and footer metadata.
#[derive(Debug)]
pub struct FileSummary {
    pub superblock: Superblock,
    pub datasets: Vec<DatasetListing>,
    pub chunks: Vec<ChunkIndexEntry>,
    pub file_execution: FileExecutionSettings,
    pub history: Vec<HistoryEvent>,
    pub metadata: CatalogMetadata,
}

// ---------------------------------------------------------------------------------------------
// Small labels

/// A shape as `d0×d1×…` (`-` for rank zero).
pub open spec fn spec_shape_label(shape: Seq<u64>) -> Seq<char> {
    if shape.len() == 0 {
        "-"@
    } else {
        join_with(decimals(shape), "×"@)
    }
}

fn shape_label(shape: &Vec<u64>) -> (r: String)
    ensures
        r@ == spec_shape_label(shape@),
{
    if shape.len() == 0 {
        return owned("-");
    }
    let parts = decimal_strings(shape);
    join_strings(&parts, "×")
}

/// `raw`, `zstd` or `?`.
pub open spec fn spec_codec_label(codec: u32) -> Seq<char> {
    if codec == CODEC_RAW {
        "raw"@
    } else if codec == CODEC_ZSTD {
        "zstd"@
    } else {
        "?"@
    }
}

fn codec_label(codec: u32) -> (r: &'static str)
    ensures
        r@ == spec_codec_label(codec),
{
    if codec == CODEC_RAW {
        "raw"
    } else if codec == CODEC_ZSTD {
        "zstd"
    } else {
        "?"
    }
}

/// `bps / 100` in decimal, without trailing zeros (`25`, `12.5`, `0.05`).
pub open spec fn spec_percent_text(bps: u16) -> Seq<char> {
    let whole = (bps / 100) as nat;
    let frac = (bps % 100) as nat;
    if frac == 0 {
        decimal(whole)
    } else if frac % 10 == 0 {
        decimal(whole) + "."@ + decimal(frac / 10)
    } else if frac < 10 {
        decimal(whole) + ".0"@ + decimal(frac)
    } else {
        decimal(whole) + "."@ + decimal(frac)
    }
}

/// `bps / 100` in decimal, without trailing zeros.
pub fn percent_text(bps: u16) -> (r: String)
    ensures
        r@ == spec_percent_text(bps),
{
    let whole = (bps / 100) as u64;
    let frac = (bps % 100) as u64;
    let mut s = u64_to_decimal(whole);
    if frac == 0 {
    } else if frac % 10 == 0 {
        push_str(&mut s, ".");
        push_decimal(&mut s, frac / 10);
    } else if frac < 10 {
        push_str(&mut s, ".0");
        push_decimal(&mut s, frac);
    } else {
        push_str(&mut s, ".");
        push_decimal(&mut s, frac);
    }
    s
}

// ---------------------------------------------------------------------------------------------
// Sections without tables

/// The `layout:` section.
pub open spec fn spec_layout_section(sb: &Superblock) -> Seq<char> {
    "layout:\n"@ + "  layout_version:    "@ + decimal(sb.layout_version as nat) + "\n"@
        + "  dataset_count:     "@ + decimal(sb.dataset_count as nat) + "\n"@
        + "  flags:             "@ + decimal(sb.flags as nat) + " (history_footer="@ + bool_text(
        sb.flags & SUPERBLOCK_FLAG_HISTORY_FOOTER != 0,
    ) + ")\n"@ + "  chunk_index_offset: "@ + decimal(sb.chunk_index_offset as nat) + "\n"@
        + "  chunk_index_length: "@ + decimal(sb.chunk_index_length as nat) + "\n"@
}

fn push_line_decimal(out: &mut String, head: &str, n: u64)
    ensures
        final(out)@ == old(out)@ + head@ + decimal(n as nat) + "\n"@,
{
    push_str(out, head);
    push_decimal(out, n);
    push_str(out, "\n");
}

fn format_layout_section(sb: &Superblock) -> (r: String)
    ensures
        r@ == spec_layout_section(sb),
{
    let mut out = owned("layout:\n");
    push_line_decimal(&mut out, "  layout_version:    ", sb.layout_version as u64);
    push_line_decimal(&mut out, "  dataset_count:     ", sb.dataset_count);
    push_str(&mut out, "  flags:             ");
    push_decimal(&mut out, sb.flags as u64);
    push_str(&mut out, " (history_footer=");
    if sb.flags & SUPERBLOCK_FLAG_HISTORY_FOOTER != 0 {
        push_str(&mut out, "true");
    } else {
        push_str(&mut out, "false");
    }
    push_str(&mut out, ")\n");
    push_line_decimal(&mut out, "  chunk_index_offset: ", sb.chunk_index_offset);
    push_line_decimal(&mut out, "  chunk_index_length: ", sb.chunk_index_length);
    out
}

/// The `execution (file defaults):` section: the engine-default note when nothing is set, else
/// the percent and byte budgets that are.
pub open spec fn spec_execution_section(ex: FileExecutionSettings) -> Seq<char> {
    "execution (file defaults):\n"@ + if ex.memory_budget_bytes == 0
        && ex.memory_budget_percent_bps == 0 {
        "  (engine defaults — 25% host RAM when unset in query JSON)\n"@
    } else {
        (if ex.memory_budget_percent_bps != 0 {
            "  memory_budget_percent: "@ + spec_percent_text(ex.memory_budget_percent_bps) + "\n"@
        } else {
            Seq::empty()
        }) + (if ex.memory_budget_bytes != 0 {
            "  memory_budget_bytes: "@ + decimal(ex.memory_budget_bytes as nat) + "\n"@
        } else {
            Seq::empty()
        })
    }
}

fn format_execution_section(ex: FileExecutionSettings) -> (r: String)
    ensures
        r@ == spec_execution_section(ex),
{
    let mut out = owned("execution (file defaults):\n");
    if ex.memory_budget_bytes == 0 && ex.memory_budget_percent_bps == 0 {
        push_str(&mut out, "  (engine defaults — 25% host RAM when unset in query JSON)\n");
        return out;
    }
    let ghost head = out@;
    if ex.memory_budget_percent_bps != 0 {
        push_str(&mut out, "  memory_budget_percent: ");
        let pct = percent_text(ex.memory_budget_percent_bps);
        push_str(&mut out, pct.as_str());
        push_str(&mut out, "\n");
    }
    if ex.memory_budget_bytes != 0 {
        push_line_decimal(&mut out, "  memory_budget_bytes: ", ex.memory_budget_bytes);
    }
    assert(out@ =~= spec_execution_section(ex));
    out
}

/// `  LABEL: VALUE` when the value is present.
pub open spec fn opt_line(label: Seq<char>, value: Option<String>) -> Seq<char> {
    match value {
        Some(v) => "  "@ + label + ": "@ + v@ + "\n"@,
        None => Seq::empty(),
    }
}

fn push_opt_line(out: &mut String, label: &str, value: &Option<String>)
    ensures
        final(out)@ == old(out)@ + opt_line(label@, *value),
{
    match value {
        Some(v) => {
            push_str(out, "  ");
            push_str(out, label);
            push_str(out, ": ");
            push_str(out, v.as_str());
            push_str(out, "\n");
        },
        None => {
            assert(out@ =~= old(out)@ + opt_line(label@, *value));
        },
    }
}

/// The `file metadata:` section.
pub open spec fn spec_file_metadata_section(f: &FileMetadata) -> Seq<char> {
    "file metadata:\n"@ + opt_line("tool"@, f.tool) + opt_line("library_version"@, f.library_version)
        + opt_line("created_at"@, f.created_at)
}

fn format_file_metadata_section(f: &FileMetadata) -> (r: String)
    ensures
        r@ == spec_file_metadata_section(f),
{
    let mut out = owned("file metadata:\n");
    push_opt_line(&mut out, "tool", &f.tool);
    push_opt_line(&mut out, "library_version", &f.library_version);
    push_opt_line(&mut out, "created_at", &f.created_at);
    assert(out@ =~= spec_file_metadata_section(f));
    out
}

/// `  N  KIND  FORMAT  at=T` lines, numbered from one.
pub open spec fn history_lines(h: Seq<HistoryEvent>) -> Seq<char>
    decreases h.len(),
{
    if h.len() == 0 {
        Seq::empty()
    } else {
        history_lines(h.drop_last()) + "  "@ + pad_left(decimal(h.len()), 3) + "  "@ + h.last().kind@
            + "  "@ + h.last().format@ + "  at="@ + decimal(h.last().at as nat) + "\n"@
    }
}

/// The `history:` section.
pub open spec fn spec_history_section(h: Seq<HistoryEvent>) -> Seq<char> {
    "history:\n"@ + if h.len() == 0 {
        "  (none)\n"@
    } else {
        history_lines(h)
    }
}

fn format_history_section(history: &Vec<HistoryEvent>) -> (r: String)
    ensures
        r@ == spec_history_section(history@),
{
    let mut out = owned("history:\n");
    if history.len() == 0 {
        push_str(&mut out, "  (none)\n");
        return out;
    }
    let ghost head = out@;
    let mut i: usize = 0;
    while i < history.len()
        invariant
            0 <= i <= history@.len(),
            out@ == head + history_lines(history@.take(i as int)),
        decreases history@.len() - i,
    {
        proof {
            assert(history@.take(i + 1).drop_last() =~= history@.take(i as int));
        }
        let ev = &history[i];
        push_str(&mut out, "  ");
        let n = u64_to_decimal(i as u64 + 1);
        push_right_aligned(&mut out, n.as_str(), 3);
        push_str(&mut out, "  ");
        push_str(&mut out, ev.kind.as_str());
        push_str(&mut out, "  ");
        push_str(&mut out, ev.format.as_str());
        push_str(&mut out, "  at=");
        push_decimal(&mut out, ev.at);
        push_str(&mut out, "\n");
        i += 1;
    }
    assert(history@.take(history@.len() as int) =~= history@);
    out
}


// ---------------------------------------------------------------------------------------------
// Footer metadata under a dataset row

/// The metadata entry of `name`: the first entry with that key.
pub open spec fn meta_lookup(entries: Seq<(String, DatasetMetadata)>, name: Seq<char>) -> Option<
    DatasetMetadata,
>
    decreases entries.len(),
{
    if entries.len() == 0 {
        None
    } else if entries[0].0@ == name {
        Some(entries[0].1)
    } else {
        meta_lookup(entries.drop_first(), name)
    }
}

/// The metadata entry of `name` (`BTreeMap::get`).
pub fn find_dataset_metadata<'a>(entries: &'a Vec<(String, DatasetMetadata)>, name: &str) -> (r:
    Option<&'a DatasetMetadata>)
    ensures
        match r {
            Some(m) => meta_lookup(entries@, name@) == Some(*m),
            None => meta_lookup(entries@, name@) is None,
        },
{
    let mut i: usize = 0;
    assert(entries@.skip(0) =~= entries@);
    while i < entries.len()
        invariant
            0 <= i <= entries@.len(),
            meta_lookup(entries@, name@) == meta_lookup(entries@.skip(i as int), name@),
        decreases entries@.len() - i,
    {
        assert(entries@.skip(i as int)[0] == entries@[i as int]);
        if crate::text::str_eq(entries[i].0.as_str(), name) {
            return Some(&entries[i].1);
        }
        assert(entries@.skip(i as int).drop_first() =~= entries@.skip(i + 1));
        i += 1;
    }
    None
}

/// `AXIS(N labels)` for each coordinate axis.
pub open spec fn coord_summaries(c: Seq<(String, Vec<String>)>) -> Seq<Seq<char>> {
    c.map_values(|p: (String, Vec<String>)| p.0@ + "("@ + decimal(p.1@.len()) + " labels)"@)
}

/// `AXIS: l1, l2, …` with at most twelve labels, then how many more there are.
pub open spec fn spec_coord_axis_verbose(axis: Seq<char>, labels: Seq<Seq<char>>) -> Seq<char> {
    if labels.len() == 0 {
        axis + ": (empty)"@
    } else {
        let show: nat = if labels.len() < INFO_METADATA_VERBOSE_LABELS {
            labels.len()
        } else {
            INFO_METADATA_VERBOSE_LABELS as nat
        };
        let head = join_with(labels.take(show as int), ", "@);
        if labels.len() > show {
            axis + ": "@ + head + " … (+"@ + decimal((labels.len() - show) as nat) + " more)"@
        } else {
            axis + ": "@ + head
        }
    }
}

fn format_coord_axis_verbose(axis: &str, labels: &Vec<String>) -> (r: String)
    ensures
        r@ == spec_coord_axis_verbose(axis@, strs(labels@)),
{
    let mut out = owned(axis);
    if labels.len() == 0 {
        push_str(&mut out, ": (empty)");
        return out;
    }
    let show: usize = if labels.len() < INFO_METADATA_VERBOSE_LABELS {
        labels.len()
    } else {
        INFO_METADATA_VERBOSE_LABELS
    };
    let head = join_prefix(labels, show, ", ");
    push_str(&mut out, ": ");
    push_str(&mut out, head.as_str());
    if labels.len() > show {
        push_str(&mut out, " … (+");
        push_decimal(&mut out, (labels.len() - show) as u64);
        push_str(&mut out, " more)");
    }
    out
}

/// One `       AXIS: …` line per coordinate axis.
pub open spec fn verbose_coord_lines(c: Seq<(String, Vec<String>)>) -> Seq<char>
    decreases c.len(),
{
    if c.len() == 0 {
        Seq::empty()
    } else {
        verbose_coord_lines(c.drop_last()) + "       "@ + spec_coord_axis_verbose(
            c.last().0@,
            strs(c.last().1@),
        ) + "\n"@
    }
}

/// One `       KEY: VALUE` line per attribute.
pub open spec fn attr_lines(attrs: Seq<(String, String)>) -> Seq<char>
    decreases attrs.len(),
{
    if attrs.len() == 0 {
        Seq::empty()
    } else {
        attr_lines(attrs.drop_last()) + "       "@ + attrs.last().0@ + ": "@ + attrs.last().1@
            + "\n"@
    }
}

/// Lines under a dataset row: axis names, coordinates (label counts, or label previews when
/// verbose) and attributes.
pub open spec fn spec_metadata_lines(m: DatasetMetadata, display: InfoMetadataDisplay) -> Seq<
    char,
> {
    (match m.dim_names {
        Some(d) => "       dim_names: "@ + join_with(strs(d@), ", "@) + "\n"@,
        None => Seq::empty(),
    }) + (match m.coords {
        Some(c) => match display {
            InfoMetadataDisplay::WhenPresent => "       coords: "@ + join_with(
                coord_summaries(c@),
                ", "@,
            ) + "\n"@,
            InfoMetadataDisplay::Verbose => verbose_coord_lines(c@),
        },
        None => Seq::empty(),
    }) + attr_lines(m.attrs@)
}

fn coord_summary_strings(c: &Vec<(String, Vec<String>)>) -> (r: Vec<String>)
    ensures
        strs(r@) == coord_summaries(c@),
{
    let mut out: Vec<String> = Vec::new();
    let mut i: usize = 0;
    while i < c.len()
        invariant
            0 <= i <= c@.len(),
            strs(out@) == coord_summaries(c@.take(i as int)),
        decreases c@.len() - i,
    {
        let ghost before = out@;
        let mut s = owned(c[i].0.as_str());
        push_str(&mut s, "(");
        push_decimal(&mut s, c[i].1.len() as u64);
        push_str(&mut s, " labels)");
        out.push(s);
        assert(strs(out@) =~= strs(before).push(
            c@[i as int].0@ + "("@ + decimal(c@[i as int].1@.len()) + " labels)"@,
        ));
        assert(coord_summaries(c@.take(i + 1)) =~= coord_summaries(c@.take(i as int)).push(
            c@[i as int].0@ + "("@ + decimal(c@[i as int].1@.len()) + " labels)"@,
        ));
        i += 1;
    }
    assert(c@.take(c@.len() as int) =~= c@);
    out
}

#[verifier::rlimit(40)]
fn append_dataset_metadata_lines(out: &mut String, m: &DatasetMetadata, display: InfoMetadataDisplay)
    ensures
        final(out)@ == old(out)@ + spec_metadata_lines(*m, display),
{
    match &m.dim_names {
        Some(d) => {
            push_str(out, "       dim_names: ");
            let joined = join_strings(d, ", ");
            push_str(out, joined.as_str());
            push_str(out, "\n");
        },
        None => {},
    }
    let ghost after_dims = out@;
    match &m.coords {
        Some(c) => {
            match display {
                InfoMetadataDisplay::WhenPresent => {
                    push_str(out, "       coords: ");
                    let parts = coord_summary_strings(c);
                    let joined = join_strings(&parts, ", ");
                    push_str(out, joined.as_str());
                    push_str(out, "\n");
                },
                InfoMetadataDisplay::Verbose => {
                    let ghost start = out@;
                    let mut j: usize = 0;
                    while j < c.len()
                        invariant
                            0 <= j <= c@.len(),
                            out@ == start + verbose_coord_lines(c@.take(j as int)),
                        decreases c@.len() - j,
                    {
                        proof {
                            assert(c@.take(j + 1).drop_last() =~= c@.take(j as int));
                        }
                        push_str(out, "       ");
                        let line = format_coord_axis_verbose(c[j].0.as_str(), &c[j].1);
                        push_str(out, line.as_str());
                        push_str(out, "\n");
                        j += 1;
                    }
                    assert(c@.take(c@.len() as int) =~= c@);
                },
            }
        },
        None => {},
    }
    let ghost after_coords = out@;
    let mut k: usize = 0;
    while k < m.attrs.len()
        invariant
            0 <= k <= m.attrs@.len(),
            out@ == after_coords + attr_lines(m.attrs@.take(k as int)),
        decreases m.attrs@.len() - k,
    {
        proof {
            assert(m.attrs@.take(k + 1).drop_last() =~= m.attrs@.take(k as int));
        }
        push_str(out, "       ");
        push_str(out, m.attrs[k].0.as_str());
        push_str(out, ": ");
        push_str(out, m.attrs[k].1.as_str());
        push_str(out, "\n");
        k += 1;
    }
    assert(m.attrs@.take(m.attrs@.len() as int) =~= m.attrs@);
    assert(out@ =~= old(out)@ + spec_metadata_lines(*m, display));
}


// ---------------------------------------------------------------------------------------------
// Filtering

/// Positions as integers.
pub open spec fn ints(v: Seq<usize>) -> Seq<int> {
    v.map_values(|x: usize| x as int)
}

/// A filter with at least one predicate.
pub open spec fn filter_active(filter: Option<&InfoListFilter>) -> bool {
    match filter {
        Some(f) => !(f.dataset is None && f.grep is None),
        None => false,
    }
}

/// Whether `f` keeps a dataset with the given footer metadata.
pub open spec fn spec_filter_keeps(
    f: &InfoListFilter,
    rec: DatasetListing,
    meta: Option<DatasetMetadata>,
) -> bool {
    &&& (f.dataset matches Some(d) ==> ci_contains(rec.name@, d@))
    &&& (f.grep matches Some(g) ==> ci_contains(
        spec_grep_haystack(rec, opt_meta_ref(&meta)),
        g@,
    ))
}

/// Whether dataset `i` is listed: always without an active filter, else when the filter keeps
/// it.
pub open spec fn keeps_dataset(s: &FileSummary, filter: Option<&InfoListFilter>, i: int) -> bool {
    match filter {
        Some(f) => !filter_active(filter) || spec_filter_keeps(
            f,
            s.datasets@[i],
            meta_lookup(s.metadata.datasets@, s.datasets@[i].name@),
        ),
        None => true,
    }
}

/// Positions of the listed datasets among the first `n`, in order.
pub open spec fn kept_datasets(s: &FileSummary, filter: Option<&InfoListFilter>, n: int) -> Seq<
    int,
>
    decreases n,
{
    if n <= 0 {
        Seq::empty()
    } else if keeps_dataset(s, filter, n - 1) {
        kept_datasets(s, filter, n - 1).push(n - 1)
    } else {
        kept_datasets(s, filter, n - 1)
    }
}

/// Whether chunk `p` is listed: always without an active filter, else when it belongs to a
/// listed dataset.
pub open spec fn keeps_chunk(s: &FileSummary, filter: Option<&InfoListFilter>, p: int) -> bool {
    let d = s.chunks@[p].dataset_id as int;
    !filter_active(filter) || (d < s.datasets@.len() && keeps_dataset(s, filter, d))
}

/// Positions of the listed chunks among the first `m`, in order.
pub open spec fn kept_chunks(s: &FileSummary, filter: Option<&InfoListFilter>, m: int) -> Seq<int>
    decreases m,
{
    if m <= 0 {
        Seq::empty()
    } else if keeps_chunk(s, filter, m - 1) {
        kept_chunks(s, filter, m - 1).push(m - 1)
    } else {
        kept_chunks(s, filter, m - 1)
    }
}

/// Without an active filter every dataset and every chunk is listed, in catalog order.
pub proof fn lemma_inactive_filter_lists_all(
    s: &FileSummary,
    filter: Option<&InfoListFilter>,
    n: int,
    m: int,
)
    requires
        !filter_active(filter),
        0 <= n <= s.datasets@.len(),
        0 <= m <= s.chunks@.len(),
    ensures
        kept_datasets(s, filter, n) == Seq::new(n as nat, |i: int| i),
        kept_chunks(s, filter, m) == Seq::new(m as nat, |i: int| i),
    decreases n + m,
{
    if n > 0 {
        lemma_inactive_filter_lists_all(s, filter, n - 1, m);
        assert(kept_datasets(s, filter, n) =~= Seq::new(n as nat, |i: int| i));
    } else if m > 0 {
        lemma_inactive_filter_lists_all(s, filter, n, m - 1);
        assert(kept_chunks(s, filter, m) =~= Seq::new(m as nat, |i: int| i));
    } else {
        assert(kept_datasets(s, filter, n) =~= Seq::new(n as nat, |i: int| i));
        assert(kept_chunks(s, filter, m) =~= Seq::new(m as nat, |i: int| i));
    }
}

/// The datasets and chunks a filter leaves, by position in the summary.
struct FilteredPositions {
    pub datasets: Vec<usize>,
    pub chunks: Vec<usize>,
}

/// Positions of the datasets and chunks that `filter` leaves in `summary`.
fn filtered_positions(summary: &FileSummary, filter: Option<&InfoListFilter>) -> (r:
    FilteredPositions)
    ensures
        ints(r.datasets@) == kept_datasets(summary, filter, summary.datasets@.len() as int),
        ints(r.chunks@) == kept_chunks(summary, filter, summary.chunks@.len() as int),
        forall|j: int| 0 <= j < r.datasets@.len() ==> r.datasets@[j] < summary.datasets@.len(),
        forall|j: int| 0 <= j < r.chunks@.len() ==> r.chunks@[j] < summary.chunks@.len(),
{
    let active = match filter {
        Some(f) => !f.is_empty(),
        None => false,
    };
    let n = summary.datasets.len();
    let mut keep: Vec<bool> = Vec::new();
    let mut datasets: Vec<usize> = Vec::new();
    let mut i: usize = 0;
    while i < n
        invariant
            0 <= i <= n,
            n == summary.datasets@.len(),
            active == filter_active(filter),
            keep@.len() == i,
            forall|k: int| 0 <= k < i ==> keep@[k] == keeps_dataset(summary, filter, k),
            ints(datasets@) == kept_datasets(summary, filter, i as int),
            forall|j: int| 0 <= j < datasets@.len() ==> datasets@[j] < i,
        decreases n - i,
    {
        let rec = &summary.datasets[i];
        let k = match filter {
            Some(f) => {
                if active {
                    let meta = find_dataset_metadata(&summary.metadata.datasets, rec.name.as_str());
                    let b = f.matches_dataset(rec, meta);
                    proof {
                        let want = meta_lookup(summary.metadata.datasets@, rec.name@);
                        assert(opt_meta_ref(&want) == meta);
                    }
                    b
                } else {
                    true
                }
            },
            None => true,
        };
        assert(k == keeps_dataset(summary, filter, i as int));
        let ghost before = datasets@;
        if k {
            datasets.push(i);
            assert(ints(datasets@) =~= ints(before).push(i as int));
        }
        keep.push(k);
        i += 1;
    }
    let m = summary.chunks.len();
    let mut chunks: Vec<usize> = Vec::new();
    let mut p: usize = 0;
    while p < m
        invariant
            0 <= p <= m,
            m == summary.chunks@.len(),
            n == summary.datasets@.len(),
            active == filter_active(filter),
            keep@.len() == n,
            forall|k: int| 0 <= k < n ==> keep@[k] == keeps_dataset(summary, filter, k),
            ints(chunks@) == kept_chunks(summary, filter, p as int),
            forall|j: int| 0 <= j < datasets@.len() ==> datasets@[j] < n,
            forall|j: int| 0 <= j < chunks@.len() ==> chunks@[j] < p,
        decreases m - p,
    {
        let d = summary.chunks[p].dataset_id;
        let k = !active || (d < n as u64 && keep[d as usize]);
        assert(k == keeps_chunk(summary, filter, p as int));
        let ghost before = chunks@;
        if k {
            chunks.push(p);
            assert(ints(chunks@) =~= ints(before).push(p as int));
        }
        p += 1;
    }
    FilteredPositions { datasets, chunks }
}


/// Chunk `c` pointing at dataset `id`, its other fields kept.
pub open spec fn with_dataset_id(c: ChunkIndexEntry, id: u64) -> ChunkIndexEntry {
    ChunkIndexEntry {
        dataset_id: id,
        chunk_index: c.chunk_index,
        raw_byte_len: c.raw_byte_len,
        stored_byte_len: c.stored_byte_len,
        codec: c.codec,
        payload_offset: c.payload_offset,
    }
}

/// The datasets listed among the first `n`, in catalog order.
pub open spec fn listed_datasets(s: &FileSummary, filter: Option<&InfoListFilter>, n: int) -> Seq<
    DatasetListing,
> {
    kept_datasets(s, filter, n).map_values(|i: int| s.datasets@[i])
}

/// New position of dataset `d` among the listed ones: how many listed datasets come before it.
pub open spec fn renumbered_id(s: &FileSummary, filter: Option<&InfoListFilter>, d: int) -> int {
    kept_datasets(s, filter, d).len() as int
}

/// The chunks listed among the first `m`, in order, each pointing at its dataset's new
/// position.
pub open spec fn listed_chunks(s: &FileSummary, filter: Option<&InfoListFilter>, m: int) -> Seq<
    ChunkIndexEntry,
> {
    kept_chunks(s, filter, m).map_values(
        |q: int|
            with_dataset_id(
                s.chunks@[q],
                renumbered_id(s, filter, s.chunks@[q].dataset_id as int) as u64,
            ),
    )
}

/// `name` is the name of a listed dataset.
pub open spec fn names_listed(s: &FileSummary, filter: Option<&InfoListFilter>, name: Seq<char>) -> bool {
    let kd = kept_datasets(s, filter, s.datasets@.len() as int);
    exists|j: int| 0 <= j < kd.len() && #[trigger] s.datasets@[kd[j]].name@ == name
}

/// Fewer datasets are listed before `a` than before `b > a` when `a` itself is listed, and
/// never more when `a <= b`.
proof fn lemma_kept_datasets_len(s: &FileSummary, filter: Option<&InfoListFilter>, a: int, b: int)
    requires
        0 <= a <= b,
    ensures
        kept_datasets(s, filter, a).len() <= kept_datasets(s, filter, b).len(),
        a < b && keeps_dataset(s, filter, a) ==> kept_datasets(s, filter, a).len() < kept_datasets(
            s,
            filter,
            b,
        ).len(),
        kept_datasets(s, filter, b).len() <= b,
    decreases b,
{
    if b > 0 {
        if a < b {
            lemma_kept_datasets_len(s, filter, a, b - 1);
        } else {
            lemma_kept_datasets_len(s, filter, a - 1, b - 1);
        }
    }
}

/// Every listed chunk position is a listed chunk.
proof fn lemma_kept_chunks_members(s: &FileSummary, filter: Option<&InfoListFilter>, m: int, j: int)
    requires
        0 <= m <= s.chunks@.len(),
        0 <= j < kept_chunks(s, filter, m).len(),
    ensures
        0 <= kept_chunks(s, filter, m)[j] < m,
        keeps_chunk(s, filter, kept_chunks(s, filter, m)[j]),
    decreases m,
{
    if m > 0 {
        if keeps_chunk(s, filter, m - 1) && j == kept_chunks(s, filter, m - 1).len() {
        } else {
            lemma_kept_chunks_members(s, filter, m - 1, j);
        }
    }
}

/// Whether each dataset is listed, and its new position when it is.
fn dataset_flags(summary: &FileSummary, filter: Option<&InfoListFilter>) -> (r: (Vec<bool>, Vec<u64>))
    ensures
        r.0@.len() == summary.datasets@.len(),
        r.1@.len() == summary.datasets@.len(),
        forall|k: int|
            0 <= k < summary.datasets@.len() ==> r.0@[k] == keeps_dataset(summary, filter, k)
                && r.1@[k] == renumbered_id(summary, filter, k),
{
    let active = match filter {
        Some(f) => !f.is_empty(),
        None => false,
    };
    let n = summary.datasets.len();
    let mut keep: Vec<bool> = Vec::new();
    let mut ids: Vec<u64> = Vec::new();
    let mut count: u64 = 0;
    let mut i: usize = 0;
    while i < n
        invariant
            0 <= i <= n,
            n == summary.datasets@.len(),
            active == filter_active(filter),
            keep@.len() == i,
            ids@.len() == i,
            count == kept_datasets(summary, filter, i as int).len(),
            count <= i,
            forall|k: int|
                0 <= k < i ==> keep@[k] == keeps_dataset(summary, filter, k) && ids@[k]
                    == renumbered_id(summary, filter, k),
        decreases n - i,
    {
        proof {
            lemma_kept_datasets_len(summary, filter, i as int, i as int);
        }
        let rec = &summary.datasets[i];
        let k = match filter {
            Some(f) => {
                if active {
                    let meta = find_dataset_metadata(&summary.metadata.datasets, rec.name.as_str());
                    let b = f.matches_dataset(rec, meta);
                    proof {
                        let want = meta_lookup(summary.metadata.datasets@, rec.name@);
                        assert(opt_meta_ref(&want) == meta);
                    }
                    b
                } else {
                    true
                }
            },
            None => true,
        };
        assert(k == keeps_dataset(summary, filter, i as int));
        keep.push(k);
        ids.push(count);
        if k {
            count += 1;
        }
        i += 1;
    }
    (keep, ids)
}

/// Whether some dataset in `list` is named `name`.
fn has_dataset_named(list: &Vec<DatasetListing>, name: &str) -> (r: bool)
    ensures
        r == exists|j: int| 0 <= j < list@.len() && #[trigger] list@[j].name@ == name@,
{
    let mut j: usize = 0;
    while j < list.len()
        invariant
            0 <= j <= list@.len(),
            forall|k: int| 0 <= k < j ==> #[trigger] list@[k].name@ != name@,
        decreases list@.len() - j,
    {
        if str_eq(list[j].name.as_str(), name) {
            return true;
        }
        j += 1;
    }
    false
}

/// The summary that `filter` leaves: without an active filter the summary itself; else the
/// listed datasets in catalog order, the chunks of listed datasets in order with each
/// `dataset_id` renumbered to its dataset's new position, the footer entries of listed
/// datasets, and the superblock, file execution defaults, history and file metadata as they
/// were.
pub fn filtered_summary(summary: FileSummary, filter: Option<&InfoListFilter>) -> (r: FileSummary)
    ensures
        !filter_active(filter) ==> r == summary,
        filter_active(filter) ==> (r.superblock == summary.superblock && r.file_execution
            == summary.file_execution && r.history == summary.history && r.metadata.file
            == summary.metadata.file),
        filter_active(filter) ==> r.datasets@ == listed_datasets(
            &summary,
            filter,
            summary.datasets@.len() as int,
        ),
        filter_active(filter) ==> r.chunks@ == listed_chunks(
            &summary,
            filter,
            summary.chunks@.len() as int,
        ),
        filter_active(filter) ==> r.metadata.datasets@ == summary.metadata.datasets@.filter(
            |e: (String, DatasetMetadata)| names_listed(&summary, filter, e.0@),
        ),
        filter_active(filter) ==> forall|j: int|
            0 <= j < r.chunks@.len() ==> (#[trigger] r.chunks@[j]).dataset_id < r.datasets@.len(),
{
    let active = match filter {
        Some(f) => !f.is_empty(),
        None => false,
    };
    if !active {
        return summary;
    }
    let ghost s0 = summary;
    let (keep, ids) = dataset_flags(&summary, filter);
    let FileSummary { superblock, datasets, chunks, file_execution, history, metadata } = summary;
    let n = keep.len();
    // datasets
    let mut src = datasets;
    let mut out_ds: Vec<DatasetListing> = Vec::new();
    let mut t: usize = 0;
    while t < n
        invariant
            0 <= t <= n,
            n == s0.datasets@.len(),
            keep@.len() == n,
            forall|k: int| 0 <= k < n ==> keep@[k] == keeps_dataset(&s0, filter, k),
            src@ == s0.datasets@.subrange(t as int, n as int),
            out_ds@ == listed_datasets(&s0, filter, t as int),
        decreases n - t,
    {
        let x = src.remove(0);
        let ghost before = out_ds@;
        if keep[t] {
            out_ds.push(x);
            assert(listed_datasets(&s0, filter, t + 1) =~= before.push(s0.datasets@[t as int]));
        } else {
            assert(listed_datasets(&s0, filter, t + 1) =~= before);
        }
        assert(src@ =~= s0.datasets@.subrange(t + 1, n as int));
        t += 1;
    }
    // chunks
    let m = chunks.len();
    let mut csrc = chunks;
    let mut out_ch: Vec<ChunkIndexEntry> = Vec::new();
    let mut p: usize = 0;
    while p < m
        invariant
            0 <= p <= m,
            m == s0.chunks@.len(),
            n == s0.datasets@.len(),
            filter_active(filter),
            keep@.len() == n,
            ids@.len() == n,
            forall|k: int|
                0 <= k < n ==> keep@[k] == keeps_dataset(&s0, filter, k) && ids@[k]
                    == renumbered_id(&s0, filter, k),
            csrc@ == s0.chunks@.subrange(p as int, m as int),
            out_ch@ == listed_chunks(&s0, filter, p as int),
        decreases m - p,
    {
        let mut x = csrc.remove(0);
        assert(x == s0.chunks@[p as int]);
        let d = x.dataset_id;
        let ghost before = out_ch@;
        if d < n as u64 && keep[d as usize] {
            assert(keeps_chunk(&s0, filter, p as int));
            x.dataset_id = ids[d as usize];
            out_ch.push(x);
            assert(listed_chunks(&s0, filter, p + 1) =~= before.push(
                with_dataset_id(s0.chunks@[p as int], renumbered_id(&s0, filter, d as int) as u64),
            ));
        } else {
            assert(!keeps_chunk(&s0, filter, p as int));
            assert(listed_chunks(&s0, filter, p + 1) =~= before);
        }
        assert(csrc@ =~= s0.chunks@.subrange(p + 1, m as int));
        p += 1;
    }
    // footer metadata
    let CatalogMetadata { file, datasets: meta_ds } = metadata;
    let ghost pred = |e: (String, DatasetMetadata)| names_listed(&s0, filter, e.0@);
    let ml = meta_ds.len();
    let mut msrc = meta_ds;
    let mut out_meta: Vec<(String, DatasetMetadata)> = Vec::new();
    let mut u: usize = 0;
    while u < ml
        invariant
            0 <= u <= ml,
            ml == s0.metadata.datasets@.len(),
            msrc@ == s0.metadata.datasets@.subrange(u as int, ml as int),
            out_meta@ == s0.metadata.datasets@.take(u as int).filter(pred),
            out_ds@ == listed_datasets(&s0, filter, s0.datasets@.len() as int),
            pred == (|e: (String, DatasetMetadata)| names_listed(&s0, filter, e.0@)),
        decreases ml - u,
    {
        let e = msrc.remove(0);
        assert(e == s0.metadata.datasets@[u as int]);
        let listed = has_dataset_named(&out_ds, e.0.as_str());
        proof {
            let kd = kept_datasets(&s0, filter, s0.datasets@.len() as int);
            if listed {
                let j = choose|j: int| 0 <= j < out_ds@.len() && #[trigger] out_ds@[j].name@ == e.0@;
                assert(s0.datasets@[kd[j]].name@ == e.0@);
            }
            if names_listed(&s0, filter, e.0@) {
                let j = choose|j: int| 0 <= j < kd.len() && #[trigger] s0.datasets@[kd[j]].name@ == e.0@;
                assert(out_ds@[j].name@ == e.0@);
            }
            assert(listed == pred(e));
            let tk = s0.metadata.datasets@.take(u + 1);
            assert(tk.drop_last() =~= s0.metadata.datasets@.take(u as int));
            assert(tk.last() == e);
        }
        let ghost before = out_meta@;
        if listed {
            out_meta.push(e);
        }
        proof {
            let tk = s0.metadata.datasets@.take(u + 1);
            reveal(Seq::filter);
            assert(tk.filter(pred) == if pred(tk.last()) {
                tk.drop_last().filter(pred).push(tk.last())
            } else {
                tk.drop_last().filter(pred)
            });
            assert(out_meta@ =~= tk.filter(pred));
        }
        assert(msrc@ =~= s0.metadata.datasets@.subrange(u + 1, ml as int));
        u += 1;
    }
    proof {
        assert(s0.metadata.datasets@.take(ml as int) =~= s0.metadata.datasets@);
        assert forall|j: int| 0 <= j < out_ch@.len() implies (#[trigger] out_ch@[j]).dataset_id
            < out_ds@.len() by {
            let kc = kept_chunks(&s0, filter, m as int);
            lemma_kept_chunks_members(&s0, filter, m as int, j);
            let d = s0.chunks@[kc[j]].dataset_id as int;
            lemma_kept_datasets_len(&s0, filter, d, n as int);
        }
    }
    FileSummary {
        superblock,
        datasets: out_ds,
        chunks: out_ch,
        file_execution,
        history,
        metadata: CatalogMetadata { file, datasets: out_meta },
    }
}

// ---------------------------------------------------------------------------------------------
// Dataset table

/// Number of chunks that belong to dataset `id`.
pub open spec fn count_chunks_of(chunks: Seq<ChunkIndexEntry>, id: int) -> nat
    decreases chunks.len(),
{
    if chunks.len() == 0 {
        0
    } else {
        count_chunks_of(chunks.drop_last(), id) + if chunks.last().dataset_id as int == id {
            1nat
        } else {
            0nat
        }
    }
}

pub(crate) fn count_chunks(chunks: &Vec<ChunkIndexEntry>, id: usize) -> (r: u64)
    ensures
        r == count_chunks_of(chunks@, id as int),
        r <= chunks@.len(),
{
    let mut n: u64 = 0;
    let mut p: usize = 0;
    while p < chunks.len()
        invariant
            0 <= p <= chunks@.len(),
            n == count_chunks_of(chunks@.take(p as int), id as int),
            n <= p,
        decreases chunks@.len() - p,
    {
        proof {
            assert(chunks@.take(p + 1).drop_last() =~= chunks@.take(p as int));
        }
        if chunks[p].dataset_id == id as u64 {
            n += 1;
        }
        p += 1;
    }
    assert(chunks@.take(chunks@.len() as int) =~= chunks@);
    n
}

/// Column titles of the dataset table.
pub open spec fn dataset_table_header() -> Seq<char> {
    "  "@ + pad_left("id"@, 3) + "  "@ + pad_right("name"@, 20) + "  "@ + pad_right("dtype"@, 5)
        + "  "@ + pad_right("shape"@, 16) + "  "@ + pad_right("chunk_shape"@, 12) + "  chunks\n"@
}

/// The table line of a dataset numbered `id` with `n_chunks` chunks.
pub open spec fn dataset_row_line(rec: DatasetListing, id: nat, n_chunks: nat) -> Seq<char> {
    "  "@ + pad_left(decimal(id), 3) + "  "@ + pad_right(truncated(rec.name@, 20), 20) + "  "@
        + pad_right(spec_dtype_label(rec.dtype), 5) + "  "@ + pad_right(
        spec_shape_label(rec.shape@),
        16,
    ) + "  "@ + pad_right(spec_shape_label(rec.chunk_shape@), 12) + "  "@ + decimal(n_chunks)
        + "\n"@
}

/// The row of dataset `i`, numbered `id`, and its metadata lines.
pub open spec fn dataset_row(
    s: &FileSummary,
    i: int,
    id: nat,
    display: InfoMetadataDisplay,
) -> Seq<char> {
    let rec = s.datasets@[i];
    dataset_row_line(rec, id, count_chunks_of(s.chunks@, i)) + match meta_lookup(
        s.metadata.datasets@,
        rec.name@,
    ) {
        Some(m) => spec_metadata_lines(m, display),
        None => Seq::empty(),
    }
}

/// The rows of the listed datasets, numbered in listing order.
pub open spec fn dataset_rows(s: &FileSummary, kept: Seq<int>, display: InfoMetadataDisplay) -> Seq<
    char,
>
    decreases kept.len(),
{
    if kept.len() == 0 {
        Seq::empty()
    } else {
        dataset_rows(s, kept.drop_last(), display) + dataset_row(
            s,
            kept.last(),
            (kept.len() - 1) as nat,
            display,
        )
    }
}

/// The `datasets:` table of the listed datasets, or why it is empty.
pub open spec fn spec_datasets_table(
    s: &FileSummary,
    filter: Option<&InfoListFilter>,
    display: InfoMetadataDisplay,
) -> Seq<char> {
    let kept = kept_datasets(s, filter, s.datasets@.len() as int);
    if kept.len() == 0 {
        if filter_active(filter) {
            "datasets: (no rows match filter)\n"@
        } else {
            "datasets: (empty file)\n"@
        }
    } else {
        "datasets:\n"@ + dataset_table_header() + dataset_rows(s, kept, display)
    }
}

fn format_dataset_row_line(rec: &DatasetListing, id: usize, n_chunks: u64) -> (r: String)
    ensures
        r@ == dataset_row_line(*rec, id as nat, n_chunks as nat),
{
    let mut out = owned("  ");
    let idx = u64_to_decimal(id as u64);
    push_right_aligned(&mut out, idx.as_str(), 3);
    push_str(&mut out, "  ");
    let name = truncate_field(rec.name.as_str(), 20);
    push_left_aligned(&mut out, name.as_str(), 20);
    push_str(&mut out, "  ");
    push_left_aligned(&mut out, dtype_label(rec.dtype), 5);
    push_str(&mut out, "  ");
    let ghost a = out@;
    let shape = shape_label(&rec.shape);
    push_left_aligned(&mut out, shape.as_str(), 16);
    push_str(&mut out, "  ");
    let chunk_shape = shape_label(&rec.chunk_shape);
    push_left_aligned(&mut out, chunk_shape.as_str(), 12);
    push_str(&mut out, "  ");
    push_decimal(&mut out, n_chunks);
    push_str(&mut out, "\n");
    assert(out@ =~= dataset_row_line(*rec, id as nat, n_chunks as nat));
    out
}

fn push_dataset_row(
    out: &mut String,
    s: &FileSummary,
    i: usize,
    id: usize,
    display: InfoMetadataDisplay,
)
    requires
        i < s.datasets@.len(),
    ensures
        final(out)@ == old(out)@ + dataset_row(s, i as int, id as nat, display),
{
    let rec = &s.datasets[i];
    let line = format_dataset_row_line(rec, id, count_chunks(&s.chunks, i));
    push_str(out, line.as_str());
    let ghost after_line = out@;
    match find_dataset_metadata(&s.metadata.datasets, rec.name.as_str()) {
        Some(m) => append_dataset_metadata_lines(out, m, display),
        None => {},
    }
    assert(out@ =~= old(out)@ + dataset_row(s, i as int, id as nat, display));
}

fn format_datasets_table(
    s: &FileSummary,
    kept: &Vec<usize>,
    filter: Option<&InfoListFilter>,
    display: InfoMetadataDisplay,
) -> (r: String)
    requires
        ints(kept@) == kept_datasets(s, filter, s.datasets@.len() as int),
        forall|j: int| 0 <= j < kept@.len() ==> kept@[j] < s.datasets@.len(),
    ensures
        r@ == spec_datasets_table(s, filter, display),
{
    let ghost all = kept_datasets(s, filter, s.datasets@.len() as int);
    if kept.len() == 0 {
        let active = match filter {
            Some(f) => !f.is_empty(),
            None => false,
        };
        if active {
            return owned("datasets: (no rows match filter)\n");
        } else {
            return owned("datasets: (empty file)\n");
        }
    }
    let mut out = owned("datasets:\n");
    push_str(&mut out, "  ");
    push_right_aligned(&mut out, "id", 3);
    push_str(&mut out, "  ");
    push_left_aligned(&mut out, "name", 20);
    push_str(&mut out, "  ");
    push_left_aligned(&mut out, "dtype", 5);
    push_str(&mut out, "  ");
    push_left_aligned(&mut out, "shape", 16);
    push_str(&mut out, "  ");
    push_left_aligned(&mut out, "chunk_shape", 12);
    push_str(&mut out, "  chunks\n");
    let ghost head = out@;
    assert(head =~= "datasets:\n"@ + dataset_table_header());
    let mut j: usize = 0;
    while j < kept.len()
        invariant
            0 <= j <= kept@.len(),
            ints(kept@) == all,
            forall|t: int| 0 <= t < kept@.len() ==> kept@[t] < s.datasets@.len(),
            out@ == head + dataset_rows(s, all.take(j as int), display),
        decreases kept@.len() - j,
    {
        proof {
            assert(all.take(j + 1).drop_last() =~= all.take(j as int));
            assert(all.take(j + 1).last() == kept@[j as int] as int);
        }
        push_dataset_row(&mut out, s, kept[j], j, display);
        j += 1;
    }
    assert(all.take(kept@.len() as int) =~= all);
    out
}


// ---------------------------------------------------------------------------------------------
// Chunk table

/// The dataset a chunk points at, when that position exists.
pub open spec fn chunk_dataset(s: &FileSummary, c: ChunkIndexEntry) -> Option<DatasetListing> {
    if (c.dataset_id as int) < s.datasets@.len() {
        Some(s.datasets@[c.dataset_id as int])
    } else {
        None
    }
}

/// Every chunk that points at a dataset has at least that dataset's rank of coordinates.
pub open spec fn chunks_wf(s: &FileSummary) -> bool {
    forall|p: int|
        0 <= p < s.chunks@.len() ==> (#[trigger] chunk_dataset(s, s.chunks@[p]) matches Some(d)
            ==> d.shape@.len() <= s.chunks@[p].chunk_index@.len())
}

/// The chunk's coordinates up to its dataset's rank, comma-separated (`-` for rank zero or no
/// dataset).
pub open spec fn spec_chunk_coords_label(c: ChunkIndexEntry, ds: Option<DatasetListing>) -> Seq<
    char,
> {
    let rank: nat = match ds {
        Some(d) => d.shape@.len(),
        None => 0,
    };
    if rank == 0 {
        "-"@
    } else {
        join_with(decimals(c.chunk_index@.take(rank as int)), ","@)
    }
}

/// The table line of chunk `p`, numbered `i`.
pub open spec fn chunk_row(s: &FileSummary, p: int, i: nat) -> Seq<char> {
    let c = s.chunks@[p];
    let ds = chunk_dataset(s, c);
    let name = match ds {
        Some(d) => d.name@,
        None => "?"@,
    };
    "  "@ + pad_left(decimal(i), 4) + "  "@ + pad_right(truncated(name, 12), 12) + "  "@
        + pad_right(spec_chunk_coords_label(c, ds), 8) + "  "@ + pad_left(
        decimal(c.raw_byte_len as nat),
        10,
    ) + "  "@ + pad_left(decimal(c.stored_byte_len as nat), 10) + "  "@ + pad_left(
        spec_codec_label(c.codec),
        5,
    ) + "  "@ + decimal(c.payload_offset as nat) + "\n"@
}

/// The lines of the given chunks, numbered in order.
pub open spec fn chunk_rows(s: &FileSummary, rows: Seq<int>) -> Seq<char>
    decreases rows.len(),
{
    if rows.len() == 0 {
        Seq::empty()
    } else {
        chunk_rows(s, rows.drop_last()) + chunk_row(s, rows.last(), (rows.len() - 1) as nat)
    }
}

/// Column titles of the chunk table.
pub open spec fn chunk_table_header() -> Seq<char> {
    "  "@ + pad_left("#"@, 4) + "  "@ + pad_right("dataset"@, 12) + "  "@ + pad_right("coords"@, 8)
        + "  "@ + pad_left("raw"@, 10) + "  "@ + pad_left("stored"@, 10) + "  "@ + pad_left(
        "codec"@,
        5,
    ) + "  offset\n"@
}

/// How many chunk rows are shown: all for limit `0`, else at most `limit`.
pub open spec fn shown_rows(limit: usize, n: nat) -> nat {
    if limit == 0 || n <= limit {
        n
    } else {
        limit as nat
    }
}

/// The `chunks:` table of the listed chunks, cut to `limit` rows (`0` for all).
pub open spec fn spec_chunks_table(s: &FileSummary, filter: Option<&InfoListFilter>, limit: usize) -> Seq<
    char,
> {
    let rows = kept_chunks(s, filter, s.chunks@.len() as int);
    let show = shown_rows(limit, rows.len());
    if rows.len() == 0 {
        "chunks: (none)\n"@
    } else {
        "chunks:\n"@ + (if show < rows.len() {
            "  (showing "@ + decimal(show) + " of "@ + decimal(rows.len()) + "; use -n 0 for all)\n"@
        } else {
            Seq::empty()
        }) + chunk_table_header() + chunk_rows(s, rows.take(show as int))
    }
}

fn chunk_coords_label(c: &ChunkIndexEntry, ds: Option<&DatasetListing>) -> (r: String)
    requires
        ds matches Some(d) ==> d.shape@.len() <= c.chunk_index@.len(),
    ensures
        r@ == spec_chunk_coords_label(*c, match ds {
            Some(d) => Some(*d),
            None => None,
        }),
{
    let rank = match ds {
        Some(d) => d.shape.len(),
        None => 0,
    };
    if rank == 0 {
        return owned("-");
    }
    let mut parts: Vec<String> = Vec::new();
    let mut k: usize = 0;
    while k < rank
        invariant
            0 <= k <= rank <= c.chunk_index@.len(),
            strs(parts@) == decimals(c.chunk_index@.take(k as int)),
        decreases rank - k,
    {
        let ghost before = parts@;
        parts.push(u64_to_decimal(c.chunk_index[k]));
        assert(strs(parts@) =~= strs(before).push(decimal(c.chunk_index@[k as int] as nat)));
        assert(decimals(c.chunk_index@.take(k + 1)) =~= decimals(c.chunk_index@.take(k as int)).push(
            decimal(c.chunk_index@[k as int] as nat),
        ));
        k += 1;
    }
    join_strings(&parts, ",")
}

fn format_chunk_row(s: &FileSummary, p: usize, i: usize) -> (r: String)
    requires
        p < s.chunks@.len(),
        chunks_wf(s),
    ensures
        r@ == chunk_row(s, p as int, i as nat),
{
    let c = &s.chunks[p];
    let ds: Option<&DatasetListing> = if c.dataset_id < s.datasets.len() as u64 {
        Some(&s.datasets[c.dataset_id as usize])
    } else {
        None
    };
    proof {
        assert(chunk_dataset(s, s.chunks@[p as int]) matches Some(d) ==> d.shape@.len()
            <= s.chunks@[p as int].chunk_index@.len());
    }
    let name: &str = match ds {
        Some(d) => d.name.as_str(),
        None => "?",
    };
    let mut out = owned("  ");
    let idx = u64_to_decimal(i as u64);
    push_right_aligned(&mut out, idx.as_str(), 4);
    push_str(&mut out, "  ");
    let short = truncate_field(name, 12);
    push_left_aligned(&mut out, short.as_str(), 12);
    push_str(&mut out, "  ");
    let coords = chunk_coords_label(c, ds);
    push_left_aligned(&mut out, coords.as_str(), 8);
    push_str(&mut out, "  ");
    let raw = u64_to_decimal(c.raw_byte_len);
    push_right_aligned(&mut out, raw.as_str(), 10);
    push_str(&mut out, "  ");
    let stored = u64_to_decimal(c.stored_byte_len);
    push_right_aligned(&mut out, stored.as_str(), 10);
    push_str(&mut out, "  ");
    push_right_aligned(&mut out, codec_label(c.codec), 5);
    push_str(&mut out, "  ");
    push_decimal(&mut out, c.payload_offset);
    push_str(&mut out, "\n");
    assert(out@ =~= chunk_row(s, p as int, i as nat));
    out
}

fn chunk_table_header_text() -> (r: String)
    ensures
        r@ == chunk_table_header(),
{
    let mut out = owned("  ");
    push_right_aligned(&mut out, "#", 4);
    push_str(&mut out, "  ");
    push_left_aligned(&mut out, "dataset", 12);
    push_str(&mut out, "  ");
    push_left_aligned(&mut out, "coords", 8);
    push_str(&mut out, "  ");
    push_right_aligned(&mut out, "raw", 10);
    push_str(&mut out, "  ");
    push_right_aligned(&mut out, "stored", 10);
    push_str(&mut out, "  ");
    push_right_aligned(&mut out, "codec", 5);
    push_str(&mut out, "  offset\n");
    out
}

fn format_chunks_table(
    s: &FileSummary,
    rows: &Vec<usize>,
    filter: Option<&InfoListFilter>,
    limit: usize,
) -> (r: String)
    requires
        ints(rows@) == kept_chunks(s, filter, s.chunks@.len() as int),
        forall|j: int| 0 <= j < rows@.len() ==> rows@[j] < s.chunks@.len(),
        chunks_wf(s),
    ensures
        r@ == spec_chunks_table(s, filter, limit),
{
    let ghost all = kept_chunks(s, filter, s.chunks@.len() as int);
    if rows.len() == 0 {
        return owned("chunks: (none)\n");
    }
    let show: usize = if limit == 0 || rows.len() <= limit {
        rows.len()
    } else {
        limit
    };
    let mut out = owned("chunks:\n");
    if show < rows.len() {
        push_str(&mut out, "  (showing ");
        push_decimal(&mut out, show as u64);
        push_str(&mut out, " of ");
        push_decimal(&mut out, rows.len() as u64);
        push_str(&mut out, "; use -n 0 for all)\n");
    }
    let ghost note = out@;
    let header = chunk_table_header_text();
    push_str(&mut out, header.as_str());
    let ghost head = out@;
    let mut t: usize = 0;
    while t < show
        invariant
            0 <= t <= show <= rows@.len(),
            ints(rows@) == all,
            forall|j: int| 0 <= j < rows@.len() ==> rows@[j] < s.chunks@.len(),
            chunks_wf(s),
            out@ == head + chunk_rows(s, all.take(t as int)),
        decreases show - t,
    {
        proof {
            assert(all.take(t + 1).drop_last() =~= all.take(t as int));
            assert(all.take(t + 1).last() == rows@[t as int] as int);
        }
        let line = format_chunk_row(s, rows[t], t);
        push_str(&mut out, line.as_str());
        t += 1;
    }
    proof {
        let shown = shown_rows(limit, all.len());
        assert(show == shown);
        let tail: Seq<char> = if shown < all.len() {
            "  (showing "@ + decimal(shown) + " of "@ + decimal(all.len()) + "; use -n 0 for all)\n"@
        } else {
            Seq::empty()
        };
        assert(note =~= "chunks:\n"@ + tail);
        assert(out@ =~= "chunks:\n"@ + tail + chunk_table_header() + chunk_rows(s, all.take(shown as int)));
    }
    out
}

// ---------------------------------------------------------------------------------------------
// Reports

/// The head of the text report: optional `file:` line, size and catalog counts, then the active
/// filter.
pub open spec fn spec_info_head(
    path: Option<&str>,
    file_len: u64,
    s: &FileSummary,
    filter: Option<&InfoListFilter>,
) -> Seq<char> {
    (match path {
        Some(p) => "file: "@ + p@ + "\n"@,
        None => Seq::empty(),
    }) + "size: "@ + decimal(file_len as nat) + " bytes  layout_version: "@ + decimal(
        s.superblock.layout_version as nat,
    ) + "  datasets: "@ + decimal(s.datasets@.len()) + "  chunks: "@ + decimal(s.chunks@.len())
        + "\n"@ + (match filter {
        Some(f) => if filter_active(filter) {
            "filter: "@ + join_words(spec_info_summary_parts(*f)) + "\n"@
        } else {
            Seq::empty()
        },
        None => Seq::empty(),
    })
}

/// A section after a blank line, when chosen.
pub open spec fn section(on: bool, text: Seq<char>) -> Seq<char> {
    if on {
        "\n"@ + text
    } else {
        Seq::empty()
    }
}

/// The datasets part: file metadata (when present) and the dataset table.
pub open spec fn spec_datasets_part(
    s: &FileSummary,
    filter: Option<&InfoListFilter>,
    display: InfoMetadataDisplay,
) -> Seq<char> {
    (match s.metadata.file {
        Some(fm) => spec_file_metadata_section(&fm) + "\n"@,
        None => Seq::empty(),
    }) + spec_datasets_table(s, filter, display)
}

/// `text`, ending with a newline.
pub open spec fn ensure_newline(text: Seq<char>) -> Seq<char> {
    if text.len() > 0 && text.last() == '\n' {
        text
    } else {
        text.push('\n')
    }
}

/// The chosen sections, each after a blank line (datasets, chunks and metadata as filtered).
pub open spec fn spec_info_sections(
    s: &FileSummary,
    filter: Option<&InfoListFilter>,
    sections: InfoViewSections,
    chunk_limit: usize,
    display: InfoMetadataDisplay,
) -> Seq<char> {
    section(sections.layout, spec_layout_section(&s.superblock)) + section(
        sections.execution,
        spec_execution_section(s.file_execution),
    ) + section(sections.datasets, spec_datasets_part(s, filter, display)) + section(
        sections.chunks,
        spec_chunks_table(s, filter, chunk_limit),
    ) + section(sections.history, spec_history_section(s.history@))
}

/// The text report: the head, then the chosen sections, ending with a newline.
pub open spec fn spec_info_text(
    path: Option<&str>,
    file_len: u64,
    s: &FileSummary,
    filter: Option<&InfoListFilter>,
    sections: InfoViewSections,
    chunk_limit: usize,
    display: InfoMetadataDisplay,
) -> Seq<char> {
    ensure_newline(
        spec_info_head(path, file_len, s, filter) + spec_info_sections(
            s,
            filter,
            sections,
            chunk_limit,
            display,
        ),
    )
}

fn format_info_head(
    path: Option<&str>,
    file_len: u64,
    summary: &FileSummary,
    filter: Option<&InfoListFilter>,
) -> (r: String)
    ensures
        r@ == spec_info_head(path, file_len, summary, filter),
{
    let mut out = String::new();
    match path {
        Some(p) => {
            push_str(&mut out, "file: ");
            push_str(&mut out, p);
            push_str(&mut out, "\n");
        },
        None => {},
    }
    let ghost file_part = out@;
    push_str(&mut out, "size: ");
    push_decimal(&mut out, file_len);
    push_str(&mut out, " bytes  layout_version: ");
    push_decimal(&mut out, summary.superblock.layout_version as u64);
    push_str(&mut out, "  datasets: ");
    push_decimal(&mut out, summary.datasets.len() as u64);
    push_str(&mut out, "  chunks: ");
    push_decimal(&mut out, summary.chunks.len() as u64);
    push_str(&mut out, "\n");
    let ghost counts = out@;
    match filter {
        Some(f) => {
            if !f.is_empty() {
                push_str(&mut out, "filter: ");
                let text = f.summary();
                push_str(&mut out, text.as_str());
                push_str(&mut out, "\n");
            }
        },
        None => {},
    }
    assert(out@ =~= spec_info_head(path, file_len, summary, filter));
    out
}

fn section_text(on: bool, text: &str) -> (r: String)
    ensures
        r@ == section(on, text@),
{
    if on {
        let mut s = owned("\n");
        push_str(&mut s, text);
        s
    } else {
        let s = String::new();
        assert(s@ =~= section(on, text@));
        s
    }
}

fn format_datasets_part(
    summary: &FileSummary,
    kept: &Vec<usize>,
    filter: Option<&InfoListFilter>,
    display: InfoMetadataDisplay,
) -> (r: String)
    requires
        ints(kept@) == kept_datasets(summary, filter, summary.datasets@.len() as int),
        forall|j: int| 0 <= j < kept@.len() ==> kept@[j] < summary.datasets@.len(),
    ensures
        r@ == spec_datasets_part(summary, filter, display),
{
    let mut text = match &summary.metadata.file {
        Some(fm) => {
            let mut t = format_file_metadata_section(fm);
            push_str(&mut t, "\n");
            t
        },
        None => String::new(),
    };
    let table = format_datasets_table(summary, kept, filter, display);
    push_str(&mut text, table.as_str());
    assert(text@ =~= spec_datasets_part(summary, filter, display));
    text
}

fn format_info_sections(
    summary: &FileSummary,
    filtered: &FilteredPositions,
    filter: Option<&InfoListFilter>,
    sections: InfoViewSections,
    chunk_limit: usize,
    display: InfoMetadataDisplay,
) -> (r: String)
    requires
        ints(filtered.datasets@) == kept_datasets(summary, filter, summary.datasets@.len() as int),
        ints(filtered.chunks@) == kept_chunks(summary, filter, summary.chunks@.len() as int),
        forall|j: int|
            0 <= j < filtered.datasets@.len() ==> filtered.datasets@[j] < summary.datasets@.len(),
        forall|j: int|
            0 <= j < filtered.chunks@.len() ==> filtered.chunks@[j] < summary.chunks@.len(),
        sections.chunks ==> chunks_wf(summary),
    ensures
        r@ == spec_info_sections(summary, filter, sections, chunk_limit, display),
{
    let layout = if sections.layout {
        format_layout_section(&summary.superblock)
    } else {
        String::new()
    };
    let mut out = section_text(sections.layout, layout.as_str());
    let execution = if sections.execution {
        format_execution_section(summary.file_execution)
    } else {
        String::new()
    };
    let part = section_text(sections.execution, execution.as_str());
    push_str(&mut out, part.as_str());
    let datasets = if sections.datasets {
        format_datasets_part(summary, &filtered.datasets, filter, display)
    } else {
        String::new()
    };
    let part = section_text(sections.datasets, datasets.as_str());
    push_str(&mut out, part.as_str());
    let chunks = if sections.chunks {
        format_chunks_table(summary, &filtered.chunks, filter, chunk_limit)
    } else {
        String::new()
    };
    let part = section_text(sections.chunks, chunks.as_str());
    push_str(&mut out, part.as_str());
    let history = if sections.history {
        format_history_section(&summary.history)
    } else {
        String::new()
    };
    let part = section_text(sections.history, history.as_str());
    push_str(&mut out, part.as_str());
    out
}

fn finish_with_newline(text: String) -> (r: String)
    ensures
        r@ == ensure_newline(text@),
{
    let mut out = text;
    let n = out.as_str().unicode_len();
    let ends_with_newline = n > 0 && out.as_str().get_char(n - 1) == '\n';
    if !ends_with_newline {
        crate::text::string_push(&mut out, '\n');
    }
    out
}

/// Multi-section text report of a catalog (`tet info`).
pub fn format_info_text(
    path: Option<&str>,
    file_len: u64,
    summary: &FileSummary,
    filter: Option<&InfoListFilter>,
    sections: InfoViewSections,
    chunk_limit: usize,
    metadata_display: InfoMetadataDisplay,
) -> (r: String)
    requires
        sections.chunks ==> chunks_wf(summary),
    ensures
        r@ == spec_info_text(
            path,
            file_len,
            summary,
            filter,
            sections,
            chunk_limit,
            metadata_display,
        ),
{
    let filtered = filtered_positions(summary, filter);
    let mut out = format_info_head(path, file_len, summary, filter);
    let body = format_info_sections(
        summary,
        &filtered,
        filter,
        sections,
        chunk_limit,
        metadata_display,
    );
    push_str(&mut out, body.as_str());
    finish_with_newline(out)
}

/// The one-line summary: path, file length, layout version and the filtered dataset, chunk and
/// history counts.
pub open spec fn spec_info_quiet(
    path: Option<&str>,
    file_len: u64,
    s: &FileSummary,
    filter: Option<&InfoListFilter>,
) -> Seq<char> {
    "path="@ + (match path {
        Some(p) => p@,
        None => "-"@,
    }) + " file_len="@ + decimal(file_len as nat) + " layout="@ + decimal(
        s.superblock.layout_version as nat,
    ) + " datasets="@ + decimal(kept_datasets(s, filter, s.datasets@.len() as int).len())
        + " chunks="@ + decimal(kept_chunks(s, filter, s.chunks@.len() as int).len()) + " history="@
        + decimal(s.history@.len())
}

/// One-line summary of a catalog (`tet info -q`).
pub fn format_info_quiet(
    path: Option<&str>,
    file_len: u64,
    summary: &FileSummary,
    filter: Option<&InfoListFilter>,
) -> (r: String)
    ensures
        r@ == spec_info_quiet(path, file_len, summary, filter),
{
    let filtered = filtered_positions(summary, filter);
    let mut out = owned("path=");
    match path {
        Some(p) => push_str(&mut out, p),
        None => push_str(&mut out, "-"),
    }
    push_str(&mut out, " file_len=");
    push_decimal(&mut out, file_len);
    push_str(&mut out, " layout=");
    push_decimal(&mut out, summary.superblock.layout_version as u64);
    push_str(&mut out, " datasets=");
    push_decimal(&mut out, filtered.datasets.len() as u64);
    push_str(&mut out, " chunks=");
    push_decimal(&mut out, filtered.chunks.len() as u64);
    push_str(&mut out, " history=");
    push_decimal(&mut out, summary.history.len() as u64);
    assert(out@ =~= spec_info_quiet(path, file_len, summary, filter));
    out
}

} // verus!
