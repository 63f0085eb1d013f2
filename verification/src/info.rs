//! Catalog listing options: which report sections to show and the dataset filter.
use vstd::prelude::*;

use crate::text::{
    ci_contains, contains_ascii_case_insensitive, join_with_spaces, join_words,
    lemma_ci_contains_concat, lemma_ci_contains_join_words, owned, push_str,
};
use crate::types::{strs, DTYPE_F32, DTYPE_F64, DTYPE_I32, DTYPE_I64};

verus! {

broadcast use vstd::string::group_string_axioms;

/// Default max chunk rows in the text table.
pub const DEFAULT_INFO_CHUNK_TABLE_LIMIT: usize = 32;

/// Max coordinate labels printed per axis in verbose metadata mode.
pub const INFO_METADATA_VERBOSE_LABELS: usize = 12;

/// How dataset footer metadata is rendered in the default dataset table.
#[derive(Debug, Clone, Copy, PartialEq, Eq, Structural)]
pub enum InfoMetadataDisplay {
    /// Under each dataset row when footer metadata exists.
    WhenPresent,
    /// Also prints coordinate label previews.
    Verbose,
}

impl Default for InfoMetadataDisplay {
    fn default() -> (r: Self)
        ensures
            r == InfoMetadataDisplay::WhenPresent,
    {
        InfoMetadataDisplay::WhenPresent
    }
}

/// Which sections to print in text mode.
#[derive(Debug, Clone, Copy, PartialEq, Eq, Structural)]
pub struct InfoViewSections {
    pub layout: bool,
    pub execution: bool,
    pub datasets: bool,
    pub chunks: bool,
    pub history: bool,
}

impl InfoViewSections {
    /// Default text view: dataset catalog table only (plus file header).
    pub fn default_table() -> (r: Self)
        ensures
            r == (InfoViewSections {
                layout: false,
                execution: false,
                datasets: true,
                chunks: false,
                history: false,
            }),
    {
        InfoViewSections {
            layout: false,
            execution: false,
            datasets: true,
            chunks: false,
            history: false,
        }
    }

    /// All text sections (the chunk table still obeys its row limit).
    pub fn all() -> (r: Self)
        ensures
            r == (InfoViewSections {
                layout: true,
                execution: true,
                datasets: true,
                chunks: true,
                history: true,
            }),
    {
        InfoViewSections { layout: true, execution: true, datasets: true, chunks: true, history: true }
    }
}

/// Sections selected by the flags: everything for `all`, the flagged sections when any is set,
/// else the default dataset table.
pub open spec fn spec_sections_from_flags(
    all: bool,
    layout: bool,
    execution: bool,
    datasets: bool,
    chunks: bool,
    history: bool,
) -> InfoViewSections {
    if all {
        InfoViewSections { layout: true, execution: true, datasets: true, chunks: true, history: true }
    } else if layout || execution || datasets || chunks || history {
        InfoViewSections { layout, execution, datasets, chunks, history }
    } else {
        InfoViewSections {
            layout: false,
            execution: false,
            datasets: true,
            chunks: false,
            history: false,
        }
    }
}

/// Resolve text sections from CLI flags.
pub fn info_view_sections_from_flags(
    all: bool,
    layout: bool,
    execution: bool,
    datasets: bool,
    chunks: bool,
    history: bool,
) -> (r: InfoViewSections)
    ensures
        r == spec_sections_from_flags(all, layout, execution, datasets, chunks, history),
{
    if all {
        return InfoViewSections::all();
    }
    let any = layout || execution || datasets || chunks || history;
    if any {
        InfoViewSections { layout, execution, datasets, chunks, history }
    } else {
        InfoViewSections::default_table()
    }
}

/// The catalog fields of a dataset record that listings read.
#[derive(Debug)]
pub struct DatasetListing {
    /// Dataset name.
    pub name: String,
    /// Element type wire tag.
    pub dtype: u32,
    /// Extent of each axis.
    pub shape: Vec<u64>,
    /// Extent of a chunk along each axis.
    pub chunk_shape: Vec<u64>,
}

/// Footer metadata of a dataset (maps as key-ordered member lists).
#[derive(Debug)]
pub struct DatasetMetadata {
    /// Axis names.
    pub dim_names: Option<Vec<String>>,
    /// Free-form attributes.
    pub attrs: Vec<(String, String)>,
    /// Coordinate labels per axis name.
    pub coords: Option<Vec<(String, Vec<String>)>>,
}

/// Short label of a dtype tag (`?` for the types the listing does not name).
pub open spec fn spec_dtype_label(tag: u32) -> Seq<char> {
    if tag == DTYPE_F32 {
        "f32"@
    } else if tag == DTYPE_F64 {
        "f64"@
    } else if tag == DTYPE_I32 {
        "i32"@
    } else if tag == DTYPE_I64 {
        "i64"@
    } else {
        "?"@
    }
}

pub(crate) fn dtype_label(tag: u32) -> (r: &'static str)
    ensures
        r@ == spec_dtype_label(tag),
{
    if tag == DTYPE_F32 {
        "f32"
    } else if tag == DTYPE_F64 {
        "f64"
    } else if tag == DTYPE_I32 {
        "i32"
    } else if tag == DTYPE_I64 {
        "i64"
    } else {
        "?"
    }
}

/// ` w1 w2 …`: each word preceded by a space.
pub open spec fn spaced_words(words: Seq<Seq<char>>) -> Seq<char>
    decreases words.len(),
{
    if words.len() == 0 {
        Seq::empty()
    } else {
        spaced_words(words.drop_last()) + " "@ + words.last()
    }
}

/// ` k v` for each attribute.
pub open spec fn spaced_pairs(pairs: Seq<(String, String)>) -> Seq<char>
    decreases pairs.len(),
{
    if pairs.len() == 0 {
        Seq::empty()
    } else {
        spaced_pairs(pairs.drop_last()) + " "@ + pairs.last().0@ + " "@ + pairs.last().1@
    }
}

/// ` axis l1 l2 …` for each coordinate axis.
pub open spec fn spaced_coords(coords: Seq<(String, Vec<String>)>) -> Seq<char>
    decreases coords.len(),
{
    if coords.len() == 0 {
        Seq::empty()
    } else {
        spaced_coords(coords.drop_last()) + " "@ + coords.last().0@ + spaced_words(
            strs(coords.last().1@),
        )
    }
}

/// `Some(&m)` for `Some(m)`.
pub open spec fn opt_meta_ref(m: &Option<DatasetMetadata>) -> Option<&DatasetMetadata> {
    match m {
        Some(x) => Some(x),
        None => None,
    }
}

/// Text that `grep` searches: name and dtype label, then axis names, attributes and coordinate
/// labels when metadata is present.
pub open spec fn spec_grep_haystack(rec: DatasetListing, meta: Option<&DatasetMetadata>) -> Seq<char> {
    let base = rec.name@ + " "@ + spec_dtype_label(rec.dtype);
    match meta {
        None => base,
        Some(m) => base + (match m.dim_names {
            Some(d) => " "@ + join_words(strs(d@)),
            None => Seq::empty(),
        }) + spaced_pairs(m.attrs@) + (match m.coords {
            Some(c) => spaced_coords(c@),
            None => Seq::empty(),
        }),
    }
}

proof fn lemma_spaced_words_has(words: Seq<Seq<char>>, i: int, g: Seq<char>)
    requires
        0 <= i < words.len(),
        ci_contains(words[i], g),
    ensures
        ci_contains(spaced_words(words), g),
    decreases words.len(),
{
    let init = spaced_words(words.drop_last());
    if i < words.len() - 1 {
        lemma_spaced_words_has(words.drop_last(), i, g);
        lemma_ci_contains_concat(init, " "@, g);
    }
    lemma_ci_contains_concat(init + " "@, words.last(), g);
}

proof fn lemma_spaced_pairs_has(pairs: Seq<(String, String)>, i: int, g: Seq<char>)
    requires
        0 <= i < pairs.len(),
        ci_contains(pairs[i].0@, g) || ci_contains(pairs[i].1@, g),
    ensures
        ci_contains(spaced_pairs(pairs), g),
    decreases pairs.len(),
{
    let init = spaced_pairs(pairs.drop_last());
    let k = pairs.last().0@;
    let v = pairs.last().1@;
    if i < pairs.len() - 1 {
        lemma_spaced_pairs_has(pairs.drop_last(), i, g);
        lemma_ci_contains_concat(init, " "@, g);
        lemma_ci_contains_concat(init + " "@, k, g);
        lemma_ci_contains_concat(init + " "@ + k, " "@, g);
    } else if ci_contains(k, g) {
        lemma_ci_contains_concat(init + " "@, k, g);
        lemma_ci_contains_concat(init + " "@ + k, " "@, g);
    }
    lemma_ci_contains_concat(init + " "@ + k + " "@, v, g);
}

proof fn lemma_spaced_coords_has(coords: Seq<(String, Vec<String>)>, i: int, j: int, g: Seq<char>)
    requires
        0 <= i < coords.len(),
        ci_contains(coords[i].0@, g) || (0 <= j < coords[i].1@.len() && ci_contains(
            coords[i].1@[j]@,
            g,
        )),
    ensures
        ci_contains(spaced_coords(coords), g),
    decreases coords.len(),
{
    let init = spaced_coords(coords.drop_last());
    let a = coords.last().0@;
    let w = spaced_words(strs(coords.last().1@));
    if i < coords.len() - 1 {
        lemma_spaced_coords_has(coords.drop_last(), i, j, g);
        lemma_ci_contains_concat(init, " "@, g);
        lemma_ci_contains_concat(init + " "@, a, g);
    } else if ci_contains(a, g) {
        lemma_ci_contains_concat(init + " "@, a, g);
    } else {
        assert(strs(coords.last().1@)[j] == coords.last().1@[j]@);
        lemma_spaced_words_has(strs(coords.last().1@), j, g);
    }
    lemma_ci_contains_concat(init + " "@ + a, w, g);
}

/// The pieces of the grep text of a dataset with footer metadata `m`: base, axis names,
/// attributes, coordinates.
proof fn lemma_grep_text_split(rec: DatasetListing, m: DatasetMetadata)
    ensures
        spec_grep_haystack(rec, Some(&m)) == rec.name@ + " "@ + spec_dtype_label(rec.dtype) + (
        match m.dim_names {
            Some(d) => " "@ + join_words(strs(d@)),
            None => Seq::empty(),
        }) + spaced_pairs(m.attrs@) + (match m.coords {
            Some(c) => spaced_coords(c@),
            None => Seq::empty(),
        }),
{
}

/// `grep` searches a dataset's name and type label: a needle found there (ignoring ASCII case)
/// is found in the grep text, with or without footer metadata.
pub proof fn lemma_grep_text_has_name(rec: DatasetListing, meta: Option<&DatasetMetadata>, g: Seq<char>)
    requires
        ci_contains(rec.name@, g) || ci_contains(spec_dtype_label(rec.dtype), g),
    ensures
        ci_contains(spec_grep_haystack(rec, meta), g),
{
    let base = rec.name@ + " "@ + spec_dtype_label(rec.dtype);
    if ci_contains(rec.name@, g) {
        lemma_ci_contains_concat(rec.name@, " "@, g);
    }
    lemma_ci_contains_concat(rec.name@ + " "@, spec_dtype_label(rec.dtype), g);
    match meta {
        None => {},
        Some(m) => {
            lemma_grep_text_split(rec, *m);
            let dims: Seq<char> = match m.dim_names {
                Some(d) => " "@ + join_words(strs(d@)),
                None => Seq::empty(),
            };
            let cs: Seq<char> = match m.coords {
                Some(c) => spaced_coords(c@),
                None => Seq::empty(),
            };
            lemma_ci_contains_concat(base, dims, g);
            lemma_ci_contains_concat(base + dims, spaced_pairs(m.attrs@), g);
            lemma_ci_contains_concat(base + dims + spaced_pairs(m.attrs@), cs, g);
        },
    }
}

/// `grep` searches every axis name of a dataset's footer metadata.
pub proof fn lemma_grep_text_has_axis_name(rec: DatasetListing, m: DatasetMetadata, i: int, g: Seq<char>)
    requires
        m.dim_names is Some,
        0 <= i < m.dim_names->0@.len(),
        ci_contains(m.dim_names->0@[i]@, g),
    ensures
        ci_contains(spec_grep_haystack(rec, Some(&m)), g),
{
    lemma_grep_text_split(rec, m);
    let base = rec.name@ + " "@ + spec_dtype_label(rec.dtype);
    let d = m.dim_names->0;
    let dims = " "@ + join_words(strs(d@));
    let cs: Seq<char> = match m.coords {
        Some(c) => spaced_coords(c@),
        None => Seq::empty(),
    };
    assert(strs(d@)[i] == d@[i]@);
    lemma_ci_contains_join_words(strs(d@), i, g);
    lemma_ci_contains_concat(" "@, join_words(strs(d@)), g);
    lemma_ci_contains_concat(base, dims, g);
    lemma_ci_contains_concat(base + dims, spaced_pairs(m.attrs@), g);
    lemma_ci_contains_concat(base + dims + spaced_pairs(m.attrs@), cs, g);
}

/// `grep` searches every attribute key and value of a dataset's footer metadata.
pub proof fn lemma_grep_text_has_attribute(rec: DatasetListing, m: DatasetMetadata, i: int, g: Seq<char>)
    requires
        0 <= i < m.attrs@.len(),
        ci_contains(m.attrs@[i].0@, g) || ci_contains(m.attrs@[i].1@, g),
    ensures
        ci_contains(spec_grep_haystack(rec, Some(&m)), g),
{
    lemma_grep_text_split(rec, m);
    let base = rec.name@ + " "@ + spec_dtype_label(rec.dtype);
    let dims: Seq<char> = match m.dim_names {
        Some(d) => " "@ + join_words(strs(d@)),
        None => Seq::empty(),
    };
    let cs: Seq<char> = match m.coords {
        Some(c) => spaced_coords(c@),
        None => Seq::empty(),
    };
    lemma_spaced_pairs_has(m.attrs@, i, g);
    lemma_ci_contains_concat(base + dims, spaced_pairs(m.attrs@), g);
    lemma_ci_contains_concat(base + dims + spaced_pairs(m.attrs@), cs, g);
}

/// `grep` searches every coordinate axis name and label of a dataset's footer metadata.
pub proof fn lemma_grep_text_has_coordinate(
    rec: DatasetListing,
    m: DatasetMetadata,
    i: int,
    j: int,
    g: Seq<char>,
)
    requires
        m.coords is Some,
        0 <= i < m.coords->0@.len(),
        ci_contains(m.coords->0@[i].0@, g) || (0 <= j < m.coords->0@[i].1@.len() && ci_contains(
            m.coords->0@[i].1@[j]@,
            g,
        )),
    ensures
        ci_contains(spec_grep_haystack(rec, Some(&m)), g),
{
    lemma_grep_text_split(rec, m);
    let base = rec.name@ + " "@ + spec_dtype_label(rec.dtype);
    let dims: Seq<char> = match m.dim_names {
        Some(d) => " "@ + join_words(strs(d@)),
        None => Seq::empty(),
    };
    let c = m.coords->0;
    lemma_spaced_coords_has(c@, i, j, g);
    lemma_ci_contains_concat(base + dims + spaced_pairs(m.attrs@), spaced_coords(c@), g);
}

fn push_spaced_words(out: &mut String, words: &Vec<String>)
    ensures
        final(out)@ == old(out)@ + spaced_words(strs(words@)),
{
    let ghost start = out@;
    let mut i: usize = 0;
    while i < words.len()
        invariant
            0 <= i <= words@.len(),
            out@ == start + spaced_words(strs(words@.take(i as int))),
        decreases words@.len() - i,
    {
        proof {
            assert(strs(words@.take(i + 1)).drop_last() =~= strs(words@.take(i as int)));
        }
        push_str(out, " ");
        push_str(out, words[i].as_str());
        proof {
            assert(out@ =~= start + spaced_words(strs(words@.take(i + 1))));
        }
        i += 1;
    }
    assert(words@.take(words@.len() as int) =~= words@);
}

fn dataset_grep_haystack(rec: &DatasetListing, meta: Option<&DatasetMetadata>) -> (r: String)
    ensures
        r@ == spec_grep_haystack(*rec, meta),
{
    let mut hay = owned(rec.name.as_str());
    push_str(&mut hay, " ");
    push_str(&mut hay, dtype_label(rec.dtype));
    let m = match meta {
        None => {
            return hay;
        },
        Some(m) => m,
    };
    let ghost base = hay@;
    match &m.dim_names {
        Some(d) => {
            push_str(&mut hay, " ");
            let joined = join_with_spaces(d);
            push_str(&mut hay, joined.as_str());
        },
        None => {},
    }
    let ghost after_dims = hay@;
    let mut i: usize = 0;
    while i < m.attrs.len()
        invariant
            0 <= i <= m.attrs@.len(),
            hay@ == after_dims + spaced_pairs(m.attrs@.take(i as int)),
        decreases m.attrs@.len() - i,
    {
        proof {
            assert(m.attrs@.take(i + 1).drop_last() =~= m.attrs@.take(i as int));
        }
        push_str(&mut hay, " ");
        push_str(&mut hay, m.attrs[i].0.as_str());
        push_str(&mut hay, " ");
        push_str(&mut hay, m.attrs[i].1.as_str());
        proof {
            assert(hay@ =~= after_dims + spaced_pairs(m.attrs@.take(i + 1)));
        }
        i += 1;
    }
    assert(m.attrs@.take(m.attrs@.len() as int) =~= m.attrs@);
    let ghost after_attrs = hay@;
    match &m.coords {
        Some(c) => {
            let mut j: usize = 0;
            while j < c.len()
                invariant
                    0 <= j <= c@.len(),
                    hay@ == after_attrs + spaced_coords(c@.take(j as int)),
                decreases c@.len() - j,
            {
                proof {
                    assert(c@.take(j + 1).drop_last() =~= c@.take(j as int));
                }
                push_str(&mut hay, " ");
                push_str(&mut hay, c[j].0.as_str());
                push_spaced_words(&mut hay, &c[j].1);
                proof {
                    assert(hay@ =~= after_attrs + spaced_coords(c@.take(j + 1)));
                }
                j += 1;
            }
            assert(c@.take(c@.len() as int) =~= c@);
        },
        None => {},
    }
    proof {
        assert(hay@ =~= spec_grep_haystack(*rec, meta));
    }
    hay
}

/// Filters for dataset / chunk listing (case-insensitive substrings).
#[derive(Debug)]
pub struct InfoListFilter {
    /// Substring on dataset name.
    pub dataset: Option<String>,
    /// Substring on dataset name, dtype label or footer metadata.
    pub grep: Option<String>,
}

pub open spec fn spec_info_summary_parts(f: InfoListFilter) -> Seq<Seq<char>> {
    (match f.dataset {
        Some(d) => seq!["dataset~"@ + d@],
        None => Seq::<Seq<char>>::empty(),
    }) + (match f.grep {
        Some(g) => seq!["grep~"@ + g@],
        None => Seq::<Seq<char>>::empty(),
    })
}

/// A filter without predicates has an empty summary.
pub proof fn lemma_empty_filter_summary(f: InfoListFilter)
    requires
        f.dataset is None && f.grep is None,
    ensures
        join_words(spec_info_summary_parts(f)) == Seq::<char>::empty(),
{
    assert(spec_info_summary_parts(f) =~= Seq::<Seq<char>>::empty());
}

impl InfoListFilter {
    /// True when no predicates are set.
    pub fn is_empty(&self) -> (r: bool)
        ensures
            r == (self.dataset is None && self.grep is None),
    {
        self.dataset.is_none() && self.grep.is_none()
    }

    /// Human summary for headers (empty when no predicates).
    pub fn summary(&self) -> (r: String)
        ensures
            r@ == join_words(spec_info_summary_parts(*self)),
    {
        let mut parts: Vec<String> = Vec::new();
        match &self.dataset {
            Some(d) => {
                let mut p = owned("dataset~");
                push_str(&mut p, d.as_str());
                parts.push(p);
            },
            None => {},
        }
        match &self.grep {
            Some(g) => {
                let mut p = owned("grep~");
                push_str(&mut p, g.as_str());
                parts.push(p);
            },
            None => {},
        }
        proof {
            assert(strs(parts@) =~= spec_info_summary_parts(*self));
        }
        join_with_spaces(&parts)
    }

    /// Whether the dataset matches all set predicates (`grep` also searches footer metadata).
    pub fn matches_dataset(&self, rec: &DatasetListing, ds_meta: Option<&DatasetMetadata>) -> (r:
        bool)
        ensures
            r == ((self.dataset matches Some(d) ==> ci_contains(rec.name@, d@)) && (
            self.grep matches Some(g) ==> ci_contains(spec_grep_haystack(*rec, ds_meta), g@))),
    {
        match &self.dataset {
            Some(needle) => {
                if !contains_ascii_case_insensitive(rec.name.as_str(), needle.as_str()) {
                    return false;
                }
            },
            None => {},
        }
        match &self.grep {
            Some(needle) => {
                let hay = dataset_grep_haystack(rec, ds_meta);
                if !contains_ascii_case_insensitive(hay.as_str(), needle.as_str()) {
                    return false;
                }
            },
            None => {},
        }
        true
    }
}

} // verus!
