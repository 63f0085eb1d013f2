//! Human-readable text of a query response: the one-line summary and the ASCII tables for a
//! plan, a catalog miss or a bare echo of the document.
use vstd::prelude::*;

use crate::document_wire::{byte_len, str_byte_len};
use crate::response::{DatasetResolution, QueryResponse};
use crate::text::{
    decimal, decimal_strings, decimals, join_prefix, join_strings, join_with, join_with_spaces,
    join_words, owned, pad_left, pad_right, push_decimal, push_left_aligned, push_right_aligned,
    push_str, truncate_field, truncated, u64_to_decimal,
};
use crate::types::{strs, Operation, ReadPlan};

verus! {

broadcast use vstd::string::group_string_axioms;

/// Dataset names listed in a one-line summary before the rest is only counted.
pub const QUIET_NAME_LIST_MAX: usize = 8;

// ---------------------------------------------------------------------------------------------
// Shapes and name lists

/// A shape as `d0×d1×…` (`0` for rank zero).
pub open spec fn spec_fmt_shape(shape: Seq<u64>) -> Seq<char> {
    if shape.len() == 0 {
        "0"@
    } else {
        join_with(decimals(shape), "×"@)
    }
}

/// A shape as `d0×d1×…` (`0` for rank zero).
pub fn fmt_shape(shape: &Vec<u64>) -> (r: String)
    ensures
        r@ == spec_fmt_shape(shape@),
{
    if shape.len() == 0 {
        return owned("0");
    }
    let parts = decimal_strings(shape);
    join_strings(&parts, "×")
}

/// `[a,b,…]`; past eight names, the first eight and `…+n` for the `n` left out.
pub open spec fn spec_fmt_name_list(names: Seq<Seq<char>>) -> Seq<char> {
    if names.len() <= QUIET_NAME_LIST_MAX {
        "["@ + join_with(names, ","@) + "]"@
    } else {
        "["@ + join_with(names.take(QUIET_NAME_LIST_MAX as int), ","@) + ",…+"@ + decimal(
            (names.len() - QUIET_NAME_LIST_MAX) as nat,
        ) + "]"@
    }
}

/// `[a,b,…]`; past eight names, the first eight and `…+n` for the `n` left out.
pub fn fmt_name_list(names: &Vec<String>) -> (r: String)
    ensures
        r@ == spec_fmt_name_list(strs(names@)),
{
    let mut out = owned("[");
    if names.len() <= QUIET_NAME_LIST_MAX {
        let body = join_strings(names, ",");
        push_str(&mut out, body.as_str());
    } else {
        let body = join_prefix(names, QUIET_NAME_LIST_MAX, ",");
        push_str(&mut out, body.as_str());
        push_str(&mut out, ",…+");
        push_decimal(&mut out, (names.len() - QUIET_NAME_LIST_MAX) as u64);
    }
    push_str(&mut out, "]");
    out
}

fn tagged(tag: &str, value: &str) -> (r: String)
    ensures
        r@ == tag@ + value@,
{
    let mut s = owned(tag);
    push_str(&mut s, value);
    s
}

fn tagged_decimal(tag: &str, n: u64) -> (r: String)
    ensures
        r@ == tag@ + decimal(n as nat),
{
    let mut s = owned(tag);
    push_decimal(&mut s, n);
    s
}

// ---------------------------------------------------------------------------------------------
// One-line summary

/// `dataset=NAME`, the head of every one-line summary.
pub open spec fn spec_quiet_prefix(dataset: Seq<char>) -> Seq<char> {
    "dataset="@ + dataset
}

fn quiet_prefix(dataset: &str) -> (r: String)
    ensures
        r@ == spec_quiet_prefix(dataset@),
{
    tagged("dataset=", dataset)
}

/// One line for a planned read: chunk and element counts, stored bytes, shape and policy.
pub open spec fn spec_plan_quiet_line(dataset: Seq<char>, plan: &ReadPlan) -> Seq<char> {
    join_words(
        seq![
            spec_quiet_prefix(dataset),
            "status=planned"@,
            "chunks="@ + decimal(plan.chunk_count as nat),
            "elements="@ + decimal(plan.logical_f32_element_count as nat),
            "stored_bytes="@ + decimal(plan.total_stored_bytes as nat),
            "logical_shape="@ + spec_fmt_shape(plan.logical_selection_shape@),
            "touch_policy="@ + plan.chunk_touch_policy@,
        ],
    )
}

/// One line for a planned read.
pub fn plan_quiet_line(dataset: &str, plan: &ReadPlan) -> (r: String)
    ensures
        r@ == spec_plan_quiet_line(dataset@, plan),
{
    let shape = fmt_shape(&plan.logical_selection_shape);
    let mut parts: Vec<String> = Vec::new();
    parts.push(quiet_prefix(dataset));
    parts.push(owned("status=planned"));
    parts.push(tagged_decimal("chunks=", plan.chunk_count as u64));
    parts.push(tagged_decimal("elements=", plan.logical_f32_element_count as u64));
    parts.push(tagged_decimal("stored_bytes=", plan.total_stored_bytes));
    parts.push(tagged("logical_shape=", shape.as_str()));
    parts.push(tagged("touch_policy=", plan.chunk_touch_policy.as_str()));
    assert(strs(parts@) =~= seq![
        spec_quiet_prefix(dataset@),
        "status=planned"@,
        "chunks="@ + decimal(plan.chunk_count as nat),
        "elements="@ + decimal(plan.logical_f32_element_count as nat),
        "stored_bytes="@ + decimal(plan.total_stored_bytes as nat),
        "logical_shape="@ + spec_fmt_shape(plan.logical_selection_shape@),
        "touch_policy="@ + plan.chunk_touch_policy@,
    ]);
    join_with_spaces(&parts)
}

/// One line for a document validated without a `.tet` file.
pub open spec fn spec_echo_quiet_line(r: &QueryResponse) -> Seq<char> {
    join_words(
        seq![spec_quiet_prefix(r.dataset@), "validated"@] + (match r.selection_axes {
            Some(n) => seq!["selection_rank="@ + decimal(n as nat)],
            None => Seq::empty(),
        }) + seq!["hint=pass --tet PATH for catalog and read_plan"@],
    )
}

/// One line for a document validated without a `.tet` file.
pub fn plan_only_echo_quiet_line(response: &QueryResponse) -> (r: String)
    ensures
        r@ == spec_echo_quiet_line(response),
{
    let mut parts: Vec<String> = Vec::new();
    parts.push(quiet_prefix(response.dataset.as_str()));
    parts.push(owned("validated"));
    let ghost head = strs(parts@);
    match response.selection_axes {
        Some(n) => {
            parts.push(tagged_decimal("selection_rank=", n as u64));
        },
        None => {},
    }
    let ghost mid = strs(parts@);
    parts.push(owned("hint=pass --tet PATH for catalog and read_plan"));
    proof {
        let tail: Seq<Seq<char>> = match response.selection_axes {
            Some(n) => seq!["selection_rank="@ + decimal(n as nat)],
            None => Seq::empty(),
        };
        assert(head =~= seq![spec_quiet_prefix(response.dataset@), "validated"@]);
        assert(mid =~= head + tail);
        assert(strs(parts@) =~= mid.push("hint=pass --tet PATH for catalog and read_plan"@));
        assert(strs(parts@) =~= head + tail + seq![
            "hint=pass --tet PATH for catalog and read_plan"@,
        ]);
    }
    join_with_spaces(&parts)
}

/// One line for a dataset name that is not in the catalog, with the names that are.
pub open spec fn spec_unmatched_quiet_line(dataset: Seq<char>, c: &DatasetResolution) -> Seq<
    char,
> {
    join_words(
        seq![spec_quiet_prefix(dataset), "status=not_found"@] + (match c.available_datasets {
            Some(names) => seq!["available="@ + spec_fmt_name_list(strs(names@))],
            None => Seq::empty(),
        }),
    )
}

/// One line for a dataset name that is not in the catalog.
pub fn unmatched_dataset_quiet_line(response: &QueryResponse, catalog: &DatasetResolution) -> (r:
    String)
    ensures
        r@ == spec_unmatched_quiet_line(response.dataset@, catalog),
{
    let mut parts: Vec<String> = Vec::new();
    parts.push(quiet_prefix(response.dataset.as_str()));
    parts.push(owned("status=not_found"));
    let ghost head = strs(parts@);
    match &catalog.available_datasets {
        Some(names) => {
            let list = fmt_name_list(names);
            parts.push(tagged("available=", list.as_str()));
        },
        None => {},
    }
    proof {
        assert(head =~= seq![spec_quiet_prefix(response.dataset@), "status=not_found"@]);
        match &catalog.available_datasets {
            Some(names) => {
                assert(strs(parts@) =~= head + seq![
                    "available="@ + spec_fmt_name_list(strs(names@)),
                ]);
            },
            None => {
                assert(strs(parts@) =~= head + Seq::<Seq<char>>::empty());
            },
        }
    }
    join_with_spaces(&parts)
}

/// The one-line summary: a catalog miss, else the plan, else the echo of the document.
pub open spec fn spec_quiet_line(r: &QueryResponse) -> Seq<char> {
    match r.catalog {
        Some(c) if !c.matched => spec_unmatched_quiet_line(r.dataset@, &c),
        _ => match r.read_plan {
            Some(p) => spec_plan_quiet_line(r.dataset@, &p),
            None => spec_echo_quiet_line(r),
        },
    }
}

/// The one-line summary of a response (`--format quiet`).
pub fn format_quiet_line(response: &QueryResponse) -> (r: String)
    ensures
        r@ == spec_quiet_line(response),
{
    match &response.catalog {
        Some(catalog) => {
            if !catalog.matched {
                return unmatched_dataset_quiet_line(response, catalog);
            }
        },
        None => {},
    }
    match &response.read_plan {
        Some(plan) => plan_quiet_line(response.dataset.as_str(), plan),
        None => plan_only_echo_quiet_line(response),
    }
}

// ---------------------------------------------------------------------------------------------
// Key/value tables

/// The texts of key/value rows.
pub open spec fn text_pairs(rows: Seq<(String, String)>) -> Seq<(Seq<char>, Seq<char>)> {
    rows.map_values(|p: (String, String)| (p.0@, p.1@))
}

/// Width of the key column: the longest key in bytes, at least `4`.
pub open spec fn key_width(rows: Seq<(Seq<char>, Seq<char>)>) -> nat
    decreases rows.len(),
{
    if rows.len() == 0 {
        4
    } else {
        let w = key_width(rows.drop_last());
        let k = byte_len(rows.last().0) as nat;
        if k > w {
            k
        } else {
            w
        }
    }
}

/// `  KEY  VALUE` lines, keys left-aligned in `w` characters.
pub open spec fn kv_rows(rows: Seq<(Seq<char>, Seq<char>)>, w: nat) -> Seq<char>
    decreases rows.len(),
{
    if rows.len() == 0 {
        Seq::empty()
    } else {
        kv_rows(rows.drop_last(), w) + "  "@ + pad_right(rows.last().0, w) + "  "@ + rows.last().1
            + "\n"@
    }
}

/// `TITLE:`, the rows and a blank line; nothing for no rows.
pub open spec fn spec_kv_section(title: Seq<char>, rows: Seq<(Seq<char>, Seq<char>)>) -> Seq<char> {
    if rows.len() == 0 {
        Seq::empty()
    } else {
        title + ":\n"@ + kv_rows(rows, key_width(rows)) + "\n"@
    }
}

fn write_kv_section(out: &mut String, title: &str, rows: &Vec<(String, String)>)
    ensures
        final(out)@ == old(out)@ + spec_kv_section(title@, text_pairs(rows@)),
{
    let ghost pairs = text_pairs(rows@);
    if rows.len() == 0 {
        assert(out@ =~= old(out)@ + spec_kv_section(title@, pairs));
        return;
    }
    let mut w: usize = 4;
    let mut i: usize = 0;
    while i < rows.len()
        invariant
            0 <= i <= rows@.len(),
            pairs == text_pairs(rows@),
            w == key_width(pairs.take(i as int)),
        decreases rows@.len() - i,
    {
        proof {
            assert(pairs.take(i + 1).drop_last() =~= pairs.take(i as int));
            assert(pairs.take(i + 1).last() == (rows@[i as int].0@, rows@[i as int].1@));
        }
        let k = str_byte_len(rows[i].0.as_str());
        if k > w {
            w = k;
        }
        i += 1;
    }
    assert(pairs.take(rows@.len() as int) =~= pairs);
    push_str(out, title);
    push_str(out, ":\n");
    let ghost head = out@;
    let mut j: usize = 0;
    while j < rows.len()
        invariant
            0 <= j <= rows@.len(),
            pairs == text_pairs(rows@),
            w == key_width(pairs),
            out@ == head + kv_rows(pairs.take(j as int), w as nat),
        decreases rows@.len() - j,
    {
        proof {
            assert(pairs.take(j + 1).drop_last() =~= pairs.take(j as int));
            assert(pairs.take(j + 1).last() == (rows@[j as int].0@, rows@[j as int].1@));
        }
        push_str(out, "  ");
        push_left_aligned(out, rows[j].0.as_str(), w);
        push_str(out, "  ");
        push_str(out, rows[j].1.as_str());
        push_str(out, "\n");
        j += 1;
    }
    push_str(out, "\n");
    assert(pairs.take(rows@.len() as int) =~= pairs);
}

fn push_row(rows: &mut Vec<(String, String)>, key: &str, value: String)
    ensures
        text_pairs(final(rows)@) == text_pairs(old(rows)@).push((key@, value@)),
{
    rows.push((owned(key), value));
    assert(text_pairs(rows@) =~= text_pairs(old(rows)@).push((key@, value@)));
}

/// `true` or `false`.
pub open spec fn bool_text(b: bool) -> Seq<char> {
    if b {
        "true"@
    } else {
        "false"@
    }
}

fn bool_string(b: bool) -> (r: String)
    ensures
        r@ == bool_text(b),
{
    if b {
        owned("true")
    } else {
        owned("false")
    }
}

/// `NAME (scalar)` for a whole-tensor operation, `NAME axes=[a,b]` for a partial one.
pub open spec fn spec_operation_label(op: Operation) -> Seq<char> {
    if op.spec_axes().len() == 0 {
        op.spec_wire_key() + " (scalar)"@
    } else {
        op.spec_wire_key() + " axes=["@ + join_with(strs(op.spec_axes()), ","@) + "]"@
    }
}

fn operation_label(op: &Operation) -> (r: String)
    ensures
        r@ == spec_operation_label(*op),
{
    let mut s = owned(op.wire_key());
    let axes = op.axes();
    if axes.len() == 0 {
        push_str(&mut s, " (scalar)");
    } else {
        push_str(&mut s, " axes=[");
        let body = join_strings(axes, ",");
        push_str(&mut s, body.as_str());
        push_str(&mut s, "]");
    }
    s
}

/// Rows of the `query` table: dataset, status, acceptance, then whichever of selection rank,
/// operation, `.tet` path and message (cut to 72 bytes) are present.
pub open spec fn spec_summary_rows(r: &QueryResponse) -> Seq<(Seq<char>, Seq<char>)> {
    seq![
        ("dataset"@, r.dataset@),
        ("status"@, r.status@),
        ("accepted"@, bool_text(r.accepted)),
    ] + (match r.selection_axes {
        Some(n) => seq![("selection_axes"@, decimal(n as nat))],
        None => Seq::empty(),
    }) + (match r.operation {
        Some(op) => seq![("operation"@, spec_operation_label(op))],
        None => Seq::empty(),
    }) + (match r.tet_file {
        Some(p) => seq![("tet_file"@, p@)],
        None => Seq::empty(),
    }) + (if r.message@.len() > 0 {
        seq![("message"@, truncated(r.message@, 72))]
    } else {
        Seq::empty()
    })
}

fn summary_rows(response: &QueryResponse) -> (r: Vec<(String, String)>)
    ensures
        text_pairs(r@) == spec_summary_rows(response),
{
    let mut rows: Vec<(String, String)> = Vec::new();
    assert(text_pairs(rows@) =~= Seq::<(Seq<char>, Seq<char>)>::empty());
    push_row(&mut rows, "dataset", owned(response.dataset.as_str()));
    push_row(&mut rows, "status", owned(response.status.as_str()));
    push_row(&mut rows, "accepted", bool_string(response.accepted));
    let ghost s0 = text_pairs(rows@);
    match response.selection_axes {
        Some(n) => push_row(&mut rows, "selection_axes", u64_to_decimal(n as u64)),
        None => {},
    }
    let ghost s1 = text_pairs(rows@);
    match &response.operation {
        Some(op) => push_row(&mut rows, "operation", operation_label(op)),
        None => {},
    }
    let ghost s2 = text_pairs(rows@);
    match &response.tet_file {
        Some(p) => push_row(&mut rows, "tet_file", owned(p.as_str())),
        None => {},
    }
    let ghost s3 = text_pairs(rows@);
    if response.message.as_str().unicode_len() > 0 {
        push_row(&mut rows, "message", truncate_field(response.message.as_str(), 72));
    }
    proof {
        assert(s0 =~= seq![
            ("dataset"@, response.dataset@),
            ("status"@, response.status@),
            ("accepted"@, bool_text(response.accepted)),
        ]);
        let t1: Seq<(Seq<char>, Seq<char>)> = match response.selection_axes {
            Some(n) => seq![("selection_axes"@, decimal(n as nat))],
            None => Seq::empty(),
        };
        let t2: Seq<(Seq<char>, Seq<char>)> = match &response.operation {
            Some(op) => seq![("operation"@, spec_operation_label(*op))],
            None => Seq::empty(),
        };
        let t3: Seq<(Seq<char>, Seq<char>)> = match &response.tet_file {
            Some(p) => seq![("tet_file"@, p@)],
            None => Seq::empty(),
        };
        let t4: Seq<(Seq<char>, Seq<char>)> = if response.message@.len() > 0 {
            seq![("message"@, truncated(response.message@, 72))]
        } else {
            Seq::empty()
        };
        assert(s1 =~= s0 + t1);
        assert(s2 =~= s1 + t2);
        assert(s3 =~= s2 + t3);
        assert(text_pairs(rows@) =~= s3 + t4);
    }
    rows
}

fn push_summary_table(out: &mut String, response: &QueryResponse)
    ensures
        final(out)@ == old(out)@ + spec_kv_section("query"@, spec_summary_rows(response)),
{
    let rows = summary_rows(response);
    write_kv_section(out, "query", &rows);
}

/// `  i  NAME` lines (names cut to 40 bytes), numbered from zero.
pub open spec fn name_rows(names: Seq<Seq<char>>) -> Seq<char>
    decreases names.len(),
{
    if names.len() == 0 {
        Seq::empty()
    } else {
        name_rows(names.drop_last()) + "  "@ + pad_left(decimal((names.len() - 1) as nat), 3)
            + "  "@ + truncated(names.last(), 40) + "\n"@
    }
}

/// The `catalog` table of a miss and the catalog's dataset names when listed.
pub open spec fn spec_catalog_miss_table(c: &DatasetResolution) -> Seq<char> {
    spec_kv_section("catalog"@, seq![("matched"@, "false"@)]) + match c.available_datasets {
        None => Seq::empty(),
        Some(names) => if names@.len() == 0 {
            "datasets:\n  (none)\n\n"@
        } else {
            "datasets:\n"@ + "  "@ + pad_left("#"@, 3) + "  name\n"@ + name_rows(strs(names@))
                + "\n"@
        },
    }
}

fn push_catalog_miss_table(out: &mut String, catalog: &DatasetResolution)
    ensures
        final(out)@ == old(out)@ + spec_catalog_miss_table(catalog),
{
    let mut rows: Vec<(String, String)> = Vec::new();
    assert(text_pairs(rows@) =~= Seq::<(Seq<char>, Seq<char>)>::empty());
    push_row(&mut rows, "matched", owned("false"));
    assert(text_pairs(rows@) =~= seq![("matched"@, "false"@)]);
    write_kv_section(out, "catalog", &rows);
    let ghost after_kv = out@;
    match &catalog.available_datasets {
        None => {
            assert(out@ =~= old(out)@ + spec_catalog_miss_table(catalog));
        },
        Some(names) => {
            if names.len() == 0 {
                push_str(out, "datasets:\n  (none)\n\n");
                assert(out@ =~= old(out)@ + spec_catalog_miss_table(catalog));
                return;
            }
            push_str(out, "datasets:\n");
            push_str(out, "  ");
            push_right_aligned(out, "#", 3);
            push_str(out, "  name\n");
            let ghost head = out@;
            let ghost all = strs(names@);
            let mut i: usize = 0;
            while i < names.len()
                invariant
                    0 <= i <= names@.len(),
                    all == strs(names@),
                    out@ == head + name_rows(all.take(i as int)),
                decreases names@.len() - i,
            {
                proof {
                    assert(all.take(i + 1).drop_last() =~= all.take(i as int));
                    assert(all.take(i + 1).last() == names@[i as int]@);
                }
                push_str(out, "  ");
                let idx = u64_to_decimal(i as u64);
                push_right_aligned(out, idx.as_str(), 3);
                push_str(out, "  ");
                let name = truncate_field(names[i].as_str(), 40);
                push_str(out, name.as_str());
                push_str(out, "\n");
                i += 1;
            }
            push_str(out, "\n");
            assert(all.take(names@.len() as int) =~= all);
            assert(out@ =~= old(out)@ + spec_catalog_miss_table(catalog));
        },
    }
}

/// The `read_plan` table: touch policy, chunk count, stored bytes, shape and element count.
pub open spec fn spec_plan_table(plan: &ReadPlan) -> Seq<char> {
    spec_kv_section(
        "read_plan"@,
        seq![
            ("chunk_touch_policy"@, plan.chunk_touch_policy@),
            ("chunk_count"@, decimal(plan.chunk_count as nat)),
            ("total_stored_bytes"@, decimal(plan.total_stored_bytes as nat)),
            ("logical_shape"@, spec_fmt_shape(plan.logical_selection_shape@)),
            ("logical_elements"@, decimal(plan.logical_f32_element_count as nat)),
        ],
    )
}

fn push_plan_table(out: &mut String, plan: &ReadPlan)
    ensures
        final(out)@ == old(out)@ + spec_plan_table(plan),
{
    let mut rows: Vec<(String, String)> = Vec::new();
    assert(text_pairs(rows@) =~= Seq::<(Seq<char>, Seq<char>)>::empty());
    push_row(&mut rows, "chunk_touch_policy", owned(plan.chunk_touch_policy.as_str()));
    push_row(&mut rows, "chunk_count", u64_to_decimal(plan.chunk_count as u64));
    push_row(&mut rows, "total_stored_bytes", u64_to_decimal(plan.total_stored_bytes));
    push_row(&mut rows, "logical_shape", fmt_shape(&plan.logical_selection_shape));
    push_row(&mut rows, "logical_elements", u64_to_decimal(plan.logical_f32_element_count as u64));
    assert(text_pairs(rows@) =~= seq![
        ("chunk_touch_policy"@, plan.chunk_touch_policy@),
        ("chunk_count"@, decimal(plan.chunk_count as nat)),
        ("total_stored_bytes"@, decimal(plan.total_stored_bytes as nat)),
        ("logical_shape"@, spec_fmt_shape(plan.logical_selection_shape@)),
        ("logical_elements"@, decimal(plan.logical_f32_element_count as nat)),
    ]);
    write_kv_section(out, "read_plan", &rows);
}

/// The tables of a response: the `query` summary, then the catalog miss, or else the plan.
pub open spec fn spec_table_text(r: &QueryResponse) -> Seq<char> {
    spec_kv_section("query"@, spec_summary_rows(r)) + match r.catalog {
        Some(c) if !c.matched => spec_catalog_miss_table(&c),
        _ => match r.read_plan {
            Some(p) => spec_plan_table(&p),
            None => Seq::empty(),
        },
    }
}

/// ASCII tables of a response (`--format table`).
pub fn format_table_text(response: &QueryResponse) -> (r: String)
    ensures
        r@ == spec_table_text(response),
{
    let mut out = String::new();
    push_summary_table(&mut out, response);
    match &response.catalog {
        Some(catalog) => {
            if !catalog.matched {
                push_catalog_miss_table(&mut out, catalog);
                return out;
            }
        },
        None => {},
    }
    match &response.read_plan {
        Some(plan) => push_plan_table(&mut out, plan),
        None => {},
    }
    out
}

} // verus!
