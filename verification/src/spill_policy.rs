//! Host-controlled spill path allowlist (never set from query JSON).
//!
//! Roots are canonical directory paths; resolving and canonicalizing paths on disk is the
//! host's job, this type decides which root a resolved path falls under.
use vstd::prelude::*;

use crate::text::{owned, push_str, str_eq};
use crate::types::{strs, TetError};

verus! {

broadcast use vstd::string::group_string_axioms;

/// Allowed directory roots for query `spill` paths.
#[derive(Debug)]
pub struct SpillPathAllowlist {
    roots: Vec<String>,
    relative_base: String,
}

/// View of an allowlist: its roots in order and the base that relative spill paths resolve
/// against.
pub struct SpillAllowlistView {
    pub roots: Seq<Seq<char>>,
    pub relative_base: Seq<char>,
}

impl View for SpillPathAllowlist {
    type V = SpillAllowlistView;

    closed spec fn view(&self) -> SpillAllowlistView {
        SpillAllowlistView { roots: strs(self.roots@), relative_base: self.relative_base@ }
    }
}

/// `acc` extended with the roots of `more` that it does not hold yet, in order.
pub open spec fn union_roots(acc: Seq<Seq<char>>, more: Seq<Seq<char>>) -> Seq<Seq<char>>
    decreases more.len(),
{
    if more.len() == 0 {
        acc
    } else {
        let prev = union_roots(acc, more.drop_last());
        if prev.contains(more.last()) {
            prev
        } else {
            prev.push(more.last())
        }
    }
}

/// The roots already held stay first, in place, as more are added.
proof fn lemma_union_roots_prefix(acc: Seq<Seq<char>>, more: Seq<Seq<char>>)
    ensures
        union_roots(acc, more).len() >= acc.len(),
        forall|k: int| 0 <= k < acc.len() ==> #[trigger] union_roots(acc, more)[k] == acc[k],
    decreases more.len(),
{
    if more.len() > 0 {
        lemma_union_roots_prefix(acc, more.drop_last());
    }
}

/// Whether `path` lies under `root` as `std::path::Path::starts_with` decides (whole
/// components).
pub uninterp spec fn path_starts_with(path: Seq<char>, root: Seq<char>) -> bool;

/// `Path::new(path).starts_with(root)`.
///
/// Claims only that the answer is [`path_starts_with`] of the two texts; the component rules
/// of `Path::starts_with` are not stated here.
#[verifier::external_body]
fn path_is_under(path: &str, root: &str) -> (r: bool)
    ensures
        r == path_starts_with(path@, root@),
{
    std::path::Path::new(path).starts_with(root)
}

/// The parent `std::path::Path::parent` reports for a path string, as text.
pub uninterp spec fn path_parent(path: Seq<char>) -> Option<Seq<char>>;

/// `Path::new(path).parent()` as text.
///
/// Claims only that the result is [`path_parent`] of the path (the parent of a path given as
/// `&str` is a prefix of it, so it is UTF-8); where the path is cut follows `Path::parent` and
/// is not stated here.
#[verifier::external_body]
fn parent_text(path: &str) -> (r: Option<String>)
    ensures
        match r {
            Some(p) => path_parent(path@) == Some(p@),
            None => path_parent(path@) is None,
        },
{
    std::path::Path::new(path).parent().map(|p| p.to_string_lossy().into_owned())
}

/// The text of `Path::new(dir).join(name)`.
pub uninterp spec fn path_joined(dir: Seq<char>, name: Seq<char>) -> Seq<char>;

/// A single plain file name: non-empty, not `.` or `..`, with no separator, drive or stream
/// colon.
pub open spec fn plain_file_name(name: Seq<char>) -> bool {
    &&& name.len() > 0
    &&& name != "."@
    &&& name != ".."@
    &&& forall|i: int| 0 <= i < name.len() ==> #[trigger] name[i] != '/' && name[i] != '\\' && name[i] != ':'
}

/// `Path::new(dir).join(name)` as text.
///
/// Claims that the text is [`path_joined`] of the two texts and, for a plain file name, that
/// the joined path starts with `dir` as `Path::starts_with` decides ([`path_starts_with`]):
/// joining a relative one-component name appends it as one more component.
#[verifier::external_body]
fn join_text(dir: &str, name: &str) -> (r: String)
    ensures
        r@ == path_joined(dir@, name@),
        plain_file_name(name@) ==> path_starts_with(r@, dir@),
{
    std::path::Path::new(dir).join(name).to_string_lossy().into_owned()
}

/// Message when a `.tet` path has no parent directory to resolve relative spill paths against.
pub open spec fn spec_no_parent_message(tet_path: Seq<char>) -> Seq<char> {
    "cannot derive spill relative base from `.tet` path "@ + tet_path
}

/// The parent directory of a `.tet` path, against which relative spill paths resolve: an
/// error when the path has no parent or an empty one (a bare file name).
pub fn tet_spill_parent(tet_path: &str) -> (r: Result<String, TetError>)
    ensures
        r is Ok <==> (path_parent(tet_path@) matches Some(p) && p.len() > 0),
        r matches Ok(p) ==> path_parent(tet_path@) == Some(p@),
        r matches Err(e) ==> (e matches TetError::Validation(m) && m@ == spec_no_parent_message(
            tet_path@,
        )),
{
    match parent_text(tet_path) {
        Some(p) => {
            if p.as_str().unicode_len() > 0 {
                return Ok(p);
            }
        },
        None => {},
    }
    let mut msg = owned("cannot derive spill relative base from `.tet` path ");
    push_str(&mut msg, tet_path);
    Err(TetError::Validation(msg))
}

/// The path of file `name` inside directory `dir` (`dir` joined with `name`).
pub fn resolve_in_directory(dir: &str, name: &str) -> (r: String)
    ensures
        r@ == path_joined(dir@, name@),
        plain_file_name(name@) ==> path_starts_with(r@, dir@),
{
    join_text(dir, name)
}

fn contains_root(roots: &Vec<String>, r: &str) -> (b: bool)
    ensures
        b == strs(roots@).contains(r@),
{
    let mut i: usize = 0;
    while i < roots.len()
        invariant
            0 <= i <= roots@.len(),
            forall|k: int| 0 <= k < i ==> roots@[k]@ != r@,
        decreases roots@.len() - i,
    {
        if str_eq(roots[i].as_str(), r) {
            assert(strs(roots@)[i as int] == r@);
            return true;
        }
        i += 1;
    }
    assert forall|k: int| 0 <= k < strs(roots@).len() implies strs(roots@)[k] != r@ by {
        assert(strs(roots@)[k] == roots@[k]@);
    }
    false
}

fn push_new_roots(roots: &mut Vec<String>, more: &Vec<String>)
    ensures
        strs(final(roots)@) == union_roots(strs(old(roots)@), strs(more@)),
{
    let ghost start = strs(roots@);
    let mut i: usize = 0;
    while i < more.len()
        invariant
            0 <= i <= more@.len(),
            strs(roots@) == union_roots(start, strs(more@.take(i as int))),
        decreases more@.len() - i,
    {
        proof {
            assert(strs(more@.take(i + 1)).drop_last() =~= strs(more@.take(i as int)));
            assert(strs(more@.take(i + 1)).last() == more@[i as int]@);
        }
        if !contains_root(roots, more[i].as_str()) {
            let ghost before = roots@;
            roots.push(owned(more[i].as_str()));
            assert(strs(roots@) =~= strs(before).push(more@[i as int]@));
        }
        i += 1;
    }
    assert(more@.take(more@.len() as int) =~= more@);
}

impl SpillPathAllowlist {
    /// The default allowlist for a `.tet` file: its (canonical) parent directory, then the
    /// platform cache roots, then extra roots, each root kept once in first-seen order;
    /// relative spill paths resolve against the parent directory.
    pub fn default_for_tet(relative_base: String, cache_roots: Vec<String>, extra_roots: Vec<
        String,
    >) -> (r: Self)
        ensures
            r@.relative_base == relative_base@,
            r@.roots == union_roots(
                union_roots(seq![relative_base@], strs(cache_roots@)),
                strs(extra_roots@),
            ),
            r@.roots.len() >= 1,
            r@.roots[0] == relative_base@,
    {
        proof {
            let first = union_roots(seq![relative_base@], strs(cache_roots@));
            lemma_union_roots_prefix(seq![relative_base@], strs(cache_roots@));
            lemma_union_roots_prefix(first, strs(extra_roots@));
            assert(first[0] == relative_base@);
        }
        let mut roots: Vec<String> = Vec::new();
        roots.push(owned(relative_base.as_str()));
        assert(strs(roots@) =~= seq![relative_base@]);
        push_new_roots(&mut roots, &cache_roots);
        push_new_roots(&mut roots, &extra_roots);
        SpillPathAllowlist { roots, relative_base }
    }

    /// Explicit roots; relative spill paths use `relative_base`.
    pub fn from_roots(relative_base: String, roots: Vec<String>) -> (r: Self)
        ensures
            r@.relative_base == relative_base@,
            r@.roots == strs(roots@),
    {
        SpillPathAllowlist { roots, relative_base }
    }

    /// True when no spill roots were configured.
    pub fn is_empty(&self) -> (r: bool)
        ensures
            r == (self@.roots.len() == 0),
    {
        self.roots.len() == 0
    }

    /// Base directory that relative spill paths resolve against.
    pub fn relative_base(&self) -> (r: &str)
        ensures
            r@ == self@.relative_base,
    {
        self.relative_base.as_str()
    }

    /// Accept the resolved (canonical) form of the spill path `requested` when it lies under one
    /// of the roots.
    pub fn validate(&self, requested: &str, resolved: &str) -> (r: Result<String, TetError>)
        ensures
            r is Ok <==> exists|i: int|
                0 <= i < self@.roots.len() && path_starts_with(resolved@, #[trigger] self@.roots[i]),
            r matches Ok(p) ==> p@ == resolved@,
            r matches Err(e) ==> e.is_validation(),
    {
        let mut i: usize = 0;
        while i < self.roots.len()
            invariant
                0 <= i <= self.roots@.len(),
                forall|k: int| 0 <= k < i ==> !path_starts_with(resolved@, self.roots@[k]@),
            decreases self.roots@.len() - i,
        {
            if path_is_under(resolved, self.roots[i].as_str()) {
                assert(self@.roots[i as int] == self.roots@[i as int]@);
                return Ok(owned(resolved));
            }
            i += 1;
        }
        assert forall|k: int| 0 <= k < self@.roots.len() implies !path_starts_with(
            resolved@,
            #[trigger] self@.roots[k],
        ) by {
            assert(self@.roots[k] == self.roots@[k]@);
        }
        let mut msg = owned("spill path ");
        push_str(&mut msg, requested);
        push_str(
            &mut msg,
            " is not under an allowed root (.tet directory, platform cache, or --spill-allow); resolved to ",
        );
        push_str(&mut msg, resolved);
        Err(TetError::Validation(msg))
    }

    /// Accept the spill file `name` inside the base that relative spill paths resolve against.
    /// When that base is the first root, as in every allowlist [`Self::default_for_tet`]
    /// builds, a plain file name is always accepted, at the base joined with the name.
    pub fn validate_file_in_base(&self, requested: &str, name: &str) -> (r: Result<String, TetError>)
        ensures
            r is Ok <==> exists|i: int|
                0 <= i < self@.roots.len() && path_starts_with(
                    path_joined(self@.relative_base, name@),
                    #[trigger] self@.roots[i],
                ),
            r matches Ok(p) ==> p@ == path_joined(self@.relative_base, name@),
            self@.roots.len() >= 1 && self@.roots[0] == self@.relative_base && plain_file_name(name@)
                ==> r is Ok,
    {
        let resolved = resolve_in_directory(self.relative_base.as_str(), name);
        proof {
            if self@.roots.len() >= 1 && self@.roots[0] == self@.relative_base && plain_file_name(name@) {
                assert(path_starts_with(resolved@, self@.roots[0]));
            }
        }
        self.validate(requested, resolved.as_str())
    }
}

/// In an allowlist whose first root is the base that relative spill paths resolve against (as
/// [`SpillPathAllowlist::default_for_tet`] builds it), a resolved spill path under that base
/// satisfies the condition on which [`SpillPathAllowlist::validate`] accepts it.
pub proof fn lemma_base_root_accepts(a: SpillAllowlistView, resolved: Seq<char>)
    requires
        a.roots.len() >= 1,
        a.roots[0] == a.relative_base,
        path_starts_with(resolved, a.relative_base),
    ensures
        exists|i: int| 0 <= i < a.roots.len() && path_starts_with(resolved, #[trigger] a.roots[i]),
{
    assert(path_starts_with(resolved, a.roots[0]));
}

} // verus!
