//! Paths as text, and the walk up a directory tree that finds the nearest marker
//! file (a Biome config, a lockfile, a `.git`, a `node_modules/.bin/biome`).
//!
//! The walk is split in two: `probe_paths` lists what to look for, the caller
//! checks which of those exist, and the functions here pick the answer.
use vstd::prelude::*;
use crate::text::{chars_to_string, push_str, to_chars};

verus! {

// ---------------------------------------------------------------------------
// std::path, through trusted wrappers
// ---------------------------------------------------------------------------

/// `Path::parent`: the path without its final component.
pub uninterp spec fn std_parent(p: Seq<char>) -> Option<Seq<char>>;

/// `Path::file_name`: the final component when it is a normal name.
pub uninterp spec fn std_file_name(p: Seq<char>) -> Option<Seq<char>>;

/// `Path::extension`: what follows the last `.` of the file name.
pub uninterp spec fn std_extension(p: Seq<char>) -> Option<Seq<char>>;

/// `Path::strip_prefix`: the rest of `p` when `base` is a leading run of its components.
pub uninterp spec fn std_strip_prefix(p: Seq<char>, base: Seq<char>) -> Option<Seq<char>>;

/// `Path == Path`: the two paths have the same components.
pub uninterp spec fn std_same_path(a: Seq<char>, b: Seq<char>) -> bool;

/// Calls `std::path::Path::parent`. Claims: the result is `std_parent` of the
/// argument, and a parent is shorter than the path it was taken from and keeps its
/// root (std documents it as the path without its final component).
#[verifier::external_body]
pub(crate) fn path_parent(p: &str) -> (r: Option<String>)
    ensures
        match r {
            Some(q) => std_parent(p@) == Some(q@) && q@.len() < p@.len() && (is_absolute(p@) ==> is_absolute(q@)),
            None => std_parent(p@) is None,
        },
{
    match std::path::Path::new(p).parent() {
        Some(q) => Some(q.to_string_lossy().into_owned()),
        None => None,
    }
}

/// Calls `std::path::Path::file_name`. Claims only that the result is `std_file_name`
/// of the argument.
#[verifier::external_body]
pub(crate) fn path_file_name(p: &str) -> (r: Option<String>)
    ensures
        match r {
            Some(q) => std_file_name(p@) == Some(q@),
            None => std_file_name(p@) is None,
        },
{
    match std::path::Path::new(p).file_name() {
        Some(q) => Some(q.to_string_lossy().into_owned()),
        None => None,
    }
}

/// Calls `std::path::Path::extension`. Claims only that the result is `std_extension`
/// of the argument.
#[verifier::external_body]
pub(crate) fn path_extension(p: &str) -> (r: Option<String>)
    ensures
        match r {
            Some(q) => std_extension(p@) == Some(q@),
            None => std_extension(p@) is None,
        },
{
    match std::path::Path::new(p).extension() {
        Some(q) => Some(q.to_string_lossy().into_owned()),
        None => None,
    }
}

/// Calls `std::path::Path::strip_prefix`. Claims only that the result is
/// `std_strip_prefix` of the arguments (`None` for std's `StripPrefixError`).
#[verifier::external_body]
pub(crate) fn path_strip_prefix(p: &str, base: &str) -> (r: Option<String>)
    ensures
        match r {
            Some(q) => std_strip_prefix(p@, base@) == Some(q@),
            None => std_strip_prefix(p@, base@) is None,
        },
{
    match std::path::Path::new(p).strip_prefix(base) {
        Ok(q) => Some(q.to_string_lossy().into_owned()),
        Err(_) => None,
    }
}

/// Calls `PartialEq::eq` on two `std::path::Path`s. Claims only that the result is
/// `std_same_path` of the arguments.
#[verifier::external_body]
pub(crate) fn same_path(a: &str, b: &str) -> (r: bool)
    ensures
        r == std_same_path(a@, b@),
{
    std::path::Path::new(a) == std::path::Path::new(b)
}

// ---------------------------------------------------------------------------
// Absolute paths and joining (Unix)
// ---------------------------------------------------------------------------

/// On Unix a path is absolute when it starts at the root.
pub open spec fn is_absolute(p: Seq<char>) -> bool {
    p.len() > 0 && p[0] == '/'
}

/// `base.join(rest)`: an absolute `rest` replaces `base`; otherwise `rest` is appended,
/// with a `/` in between unless `base` is empty or already ends with one.
pub open spec fn join(base: Seq<char>, rest: Seq<char>) -> Seq<char> {
    if is_absolute(rest) {
        rest
    } else if base.len() > 0 && base.last() != '/' {
        base + seq!['/'] + rest
    } else {
        base + rest
    }
}

pub fn is_absolute_path(p: &str) -> (r: bool)
    ensures
        r == is_absolute(p@),
{
    let v = to_chars(p);
    v.len() > 0 && v[0] == '/'
}

pub fn join_path(base: &str, rest: &str) -> (r: String)
    ensures
        r@ == join(base@, rest@),
{
    let b = to_chars(base);
    let mut out: Vec<char> = Vec::new();
    if is_absolute_path(rest) {
        push_str(&mut out, rest);
    } else {
        push_str(&mut out, base);
        if b.len() > 0 && b[b.len() - 1] != '/' {
            out.push('/');
        }
        push_str(&mut out, rest);
    }
    assert(out@ =~= join(base@, rest@));
    chars_to_string(&out)
}

// ---------------------------------------------------------------------------
// The directories a walk up visits
// ---------------------------------------------------------------------------

/// `dirs` is `start`, its parent, its parent's parent, ... up to a path without parent.
pub open spec fn is_ancestor_chain(start: Seq<char>, dirs: Seq<Seq<char>>) -> bool {
    &&& dirs.len() >= 1
    &&& dirs[0] == start
    &&& forall|k: int| 0 <= k < dirs.len() - 1 ==> std_parent(#[trigger] dirs[k]) == Some(dirs[k + 1])
    &&& std_parent(dirs.last()) is None
}

/// The directories a walk up from `start` visits, nearest first.
pub open spec fn ancestor_chain(start: Seq<char>) -> Seq<Seq<char>> {
    choose|dirs: Seq<Seq<char>>| is_ancestor_chain(start, dirs)
}

pub proof fn lemma_chain_unique(start: Seq<char>, a: Seq<Seq<char>>, b: Seq<Seq<char>>)
    requires
        is_ancestor_chain(start, a),
        is_ancestor_chain(start, b),
    ensures
        a == b,
    decreases a.len(),
{
    if a.len() > 1 {
        assert(std_parent(a[0]) == Some(a[1]));
        if b.len() == 1 {
            assert(std_parent(b[0]) is None);
            assert(false);
        }
        assert(std_parent(b[0]) == Some(b[1]));
        let a1 = a.drop_first();
        let b1 = b.drop_first();
        assert forall|k: int| 0 <= k < a1.len() - 1 implies std_parent(#[trigger] a1[k]) == Some(
            a1[k + 1],
        ) by {
            assert(a1[k] == a[k + 1]);
        }
        assert forall|k: int| 0 <= k < b1.len() - 1 implies std_parent(#[trigger] b1[k]) == Some(
            b1[k + 1],
        ) by {
            assert(b1[k] == b[k + 1]);
        }
        lemma_chain_unique(a[1], a1, b1);
        assert forall|i: int| 0 <= i < a.len() implies a[i] == b[i] by {
            if i > 0 {
                assert(a[i] == a1[i - 1]);
                assert(b[i] == b1[i - 1]);
            }
        }
        assert(a =~= b);
    } else {
        if b.len() > 1 {
            assert(std_parent(b[0]) == Some(b[1]));
            assert(false);
        }
        assert(a =~= b);
    }
}

pub open spec fn string_views(v: Seq<String>) -> Seq<Seq<char>> {
    v.map_values(|s: String| s@)
}

/// The directories a walk up from `start` visits: `start`, then each parent in turn.
/// From an absolute start every one of them is absolute.
pub fn ancestors(start: &str) -> (r: Vec<String>)
    ensures
        is_ancestor_chain(start@, string_views(r@)),
        string_views(r@) == ancestor_chain(start@),
        is_absolute(start@) ==> forall|k: int| 0 <= k < r@.len() ==> is_absolute(#[trigger] string_views(r@)[k]),
{
    let mut r: Vec<String> = Vec::new();
    let mut cur: String = start.to_owned();
    loop
        invariant
            r@.len() == 0 ==> cur@ == start@,
            r@.len() > 0 ==> string_views(r@)[0] == start@,
            r@.len() > 0 ==> std_parent(string_views(r@).last()) == Some(cur@),
            is_absolute(start@) ==> is_absolute(cur@),
            is_absolute(start@) ==> forall|k: int| 0 <= k < r@.len() ==> is_absolute(#[trigger] string_views(r@)[k]),
            forall|k: int|
                0 <= k < r@.len() - 1 ==> std_parent(#[trigger] string_views(r@)[k]) == Some(
                    string_views(r@)[k + 1],
                ),
        decreases cur@.len(),
    {
        let next = path_parent(cur.as_str());
        let ghost before = r@;
        let ghost cur_v = cur@;
        match next {
            Some(p) => {
                r.push(cur);
                cur = p;
                assert(is_absolute(start@) ==> forall|k: int| 0 <= k < r@.len() ==> is_absolute(#[trigger] string_views(r@)[k])) by {
                    if is_absolute(start@) {
                        assert forall|k: int| 0 <= k < r@.len() implies is_absolute(#[trigger] string_views(r@)[k]) by {
                            if k < before.len() {
                                assert(string_views(r@)[k] == string_views(before)[k]);
                            }
                        }
                    }
                }
                assert forall|k: int| 0 <= k < r@.len() - 1 implies std_parent(
                    #[trigger] string_views(r@)[k],
                ) == Some(string_views(r@)[k + 1]) by {
                    if k < before.len() - 1 {
                        assert(string_views(r@)[k] == string_views(before)[k]);
                    }
                }
            },
            None => {
                r.push(cur);
                assert(string_views(r@).last() == cur_v);
                assert(is_absolute(start@) ==> forall|k: int| 0 <= k < r@.len() ==> is_absolute(#[trigger] string_views(r@)[k])) by {
                    if is_absolute(start@) {
                        assert forall|k: int| 0 <= k < r@.len() implies is_absolute(#[trigger] string_views(r@)[k]) by {
                            if k < before.len() {
                                assert(string_views(r@)[k] == string_views(before)[k]);
                            }
                        }
                    }
                }
                assert forall|k: int| 0 <= k < r@.len() - 1 implies std_parent(
                    #[trigger] string_views(r@)[k],
                ) == Some(string_views(r@)[k + 1]) by {
                    if k < before.len() - 1 {
                        assert(string_views(r@)[k] == string_views(before)[k]);
                    }
                }
                proof {
                    let d = string_views(r@);
                    assert(is_ancestor_chain(start@, d));
                    let c = ancestor_chain(start@);
                    lemma_chain_unique(start@, c, d);
                }
                return r;
            },
        }
    }
}

// ---------------------------------------------------------------------------
// What a walk probes, and which probe wins
// ---------------------------------------------------------------------------

pub open spec fn str_views(v: Seq<&str>) -> Seq<Seq<char>> {
    v.map_values(|s: &str| s@)
}

/// `grid[l][j]` is candidate `j` under the `l`-th directory of the walk.
pub open spec fn probe_grid(dirs: Seq<Seq<char>>, cands: Seq<Seq<char>>) -> Seq<Seq<Seq<char>>> {
    dirs.map_values(|d: Seq<char>| cands.map_values(|c: Seq<char>| join(d, c)))
}

pub open spec fn grid_views(g: Seq<Vec<String>>) -> Seq<Seq<Seq<char>>> {
    g.map_values(|row: Vec<String>| string_views(row@))
}

/// The paths a walk up from `start` for `candidates` looks at, one row per directory,
/// nearest directory first, candidates in the given order.
pub fn probe_paths(start: &str, candidates: &[&str]) -> (r: Vec<Vec<String>>)
    ensures
        grid_views(r@) == probe_grid(ancestor_chain(start@), str_views(candidates@)),
{
    let dirs = ancestors(start);
    let ghost dv = string_views(dirs@);
    let ghost cv = str_views(candidates@);
    let m = candidates.len();
    let n = dirs.len();
    let mut grid: Vec<Vec<String>> = Vec::new();
    for l in 0..n
        invariant
            n == dirs@.len(),
            m == candidates@.len(),
            dv == string_views(dirs@),
            cv == str_views(candidates@),
            grid_views(grid@) == probe_grid(dv.take(l as int), cv),
    {
        let mut row: Vec<String> = Vec::new();
        for j in 0..m
            invariant
                l < n == dirs@.len(),
                m == candidates@.len(),
                dv == string_views(dirs@),
                cv == str_views(candidates@),
                string_views(row@) == cv.take(j as int).map_values(|c: Seq<char>| join(dv[l as int], c)),
        {
            let p = join_path(dirs[l].as_str(), candidates[j]);
            assert(dv[l as int] == dirs@[l as int]@);
            assert(cv[j as int] == candidates@[j as int]@);
            let ghost before = row@;
            row.push(p);
            assert(string_views(row@) =~= string_views(before).push(join(dv[l as int], cv[j as int])));
            assert(cv.take(j + 1) =~= cv.take(j as int).push(cv[j as int]));
            assert(string_views(row@) =~= cv.take(j + 1).map_values(
                |c: Seq<char>| join(dv[l as int], c),
            ));
        }
        assert(cv.take(m as int) =~= cv);
        let ghost before = grid@;
        let ghost rv = string_views(row@);
        assert(rv =~= cv.map_values(|c: Seq<char>| join(dv[l as int], c)));
        grid.push(row);
        assert(dv.take(l + 1) =~= dv.take(l as int).push(dv[l as int]));
        assert(grid_views(grid@) =~= grid_views(before).push(rv));
        assert(grid_views(grid@) =~= probe_grid(dv.take(l + 1), cv));
    }
    assert(dv.take(n as int) =~= dv);
    grid
}

/// Probe `(l, j)` was found to exist.
pub open spec fn hit(present: Seq<Vec<bool>>, l: int, j: int) -> bool {
    0 <= l < present.len() && 0 <= j < present[l]@.len() && present[l]@[j]
}

/// `(l, j)` is the winning probe: it exists, no probe of a nearer directory exists,
/// and no earlier candidate of the same directory exists.
pub open spec fn is_first_hit(present: Seq<Vec<bool>>, ndirs: int, ncands: int, l: int, j: int) -> bool {
    &&& 0 <= l < ndirs
    &&& 0 <= j < ncands
    &&& hit(present, l, j)
    &&& forall|l2: int, j2: int| 0 <= l2 < l && 0 <= j2 < ncands ==> !hit(present, l2, j2)
    &&& forall|j2: int| 0 <= j2 < j ==> !hit(present, l, j2)
}

pub open spec fn no_hit(present: Seq<Vec<bool>>, ndirs: int, ncands: int) -> bool {
    forall|l: int, j: int| 0 <= l < ndirs && 0 <= j < ncands ==> !hit(present, l, j)
}

pub proof fn lemma_first_hit_unique(
    present: Seq<Vec<bool>>,
    ndirs: int,
    ncands: int,
    l1: int,
    j1: int,
    l2: int,
    j2: int,
)
    requires
        is_first_hit(present, ndirs, ncands, l1, j1),
        is_first_hit(present, ndirs, ncands, l2, j2),
    ensures
        l1 == l2 && j1 == j2,
{
    if l1 < l2 {
        assert(hit(present, l1, j1));
    } else if l2 < l1 {
        assert(hit(present, l2, j2));
    } else if j1 < j2 {
        assert(hit(present, l1, j1));
    } else if j2 < j1 {
        assert(hit(present, l2, j2));
    }
}

/// The winning probe: nearest directory first, then candidate order.
pub fn first_hit(present: &Vec<Vec<bool>>, ndirs: usize, ncands: usize) -> (r: Option<(usize, usize)>)
    ensures
        match r {
            Some((l, j)) => is_first_hit(present@, ndirs as int, ncands as int, l as int, j as int),
            None => no_hit(present@, ndirs as int, ncands as int),
        },
{
    for l in 0..ndirs
        invariant
            forall|l2: int, j2: int| 0 <= l2 < l && 0 <= j2 < ncands ==> !hit(present@, l2, j2),
    {
        if l < present.len() {
            let row = &present[l];
            for j in 0..ncands
                invariant
                    l < ndirs,
                    l < present@.len(),
                    row == &present@[l as int],
                    forall|l2: int, j2: int| 0 <= l2 < l && 0 <= j2 < ncands ==> !hit(present@, l2, j2),
                    forall|j2: int| 0 <= j2 < j ==> !hit(present@, l as int, j2),
            {
                if j < row.len() && row[j] {
                    assert(hit(present@, l as int, j as int));
                    return Some((l, j));
                }
            }
        }
    }
    None
}

/// The path a walk returns: the winning probe, if any.
pub open spec fn walk_result(dirs: Seq<Seq<char>>, cands: Seq<Seq<char>>, present: Seq<Vec<bool>>) -> Option<
    Seq<char>,
> {
    if exists|l: int, j: int| is_first_hit(present, dirs.len() as int, cands.len() as int, l, j) {
        let (l, j) = choose|l: int, j: int|
            is_first_hit(present, dirs.len() as int, cands.len() as int, l, j);
        Some(join(dirs[l], cands[j]))
    } else {
        None
    }
}

pub open spec fn opt_string(o: Option<String>) -> Option<Seq<char>> {
    match o {
        Some(s) => Some(s@),
        None => None,
    }
}

/// Joining onto an absolute base gives an absolute path.
pub proof fn lemma_join_absolute(base: Seq<char>, rest: Seq<char>)
    requires
        is_absolute(base),
    ensures
        is_absolute(join(base, rest)),
{
    if !is_absolute(rest) {
        if base.last() != '/' {
            assert((base + seq!['/'] + rest)[0] == base[0]);
        } else {
            assert((base + rest)[0] == base[0]);
        }
    }
}

/// Walk up from the absolute directory `start_dir`, checking each candidate at each
/// level; the first candidate found at the nearest level wins, and its absolute path
/// is returned. `present[l][j]` says whether `probe_paths(start_dir, candidates)[l][j]`
/// exists. Callers canonicalize the start directory first.
pub fn walk_up_for(start_dir: &str, candidates: &[&str], present: &Vec<Vec<bool>>) -> (r: Option<String>)
    requires
        is_absolute(start_dir@),
    ensures
        opt_string(r) == walk_result(ancestor_chain(start_dir@), str_views(candidates@), present@),
        r matches Some(p) ==> is_absolute(p@),
{
    let dirs = ancestors(start_dir);
    let ghost dv = string_views(dirs@);
    let ghost cv = str_views(candidates@);
    match first_hit(present, dirs.len(), candidates.len()) {
        Some((l, j)) => {
            let p = join_path(dirs[l].as_str(), candidates[j]);
            proof {
                let w = choose|l2: int, j2: int|
                    is_first_hit(present@, dv.len() as int, cv.len() as int, l2, j2);
                lemma_first_hit_unique(present@, dv.len() as int, cv.len() as int, l as int, j as int, w.0, w.1);
                assert(dv[l as int] == dirs@[l as int]@);
                assert(cv[j as int] == candidates@[j as int]@);
                assert(is_absolute(dv[l as int]));
                lemma_join_absolute(dv[l as int], cv[j as int]);
            }
            Some(p)
        },
        None => {
            assert(!exists|l: int, j: int| is_first_hit(present@, dv.len() as int, cv.len() as int, l, j));
            None
        },
    }
}

} // verus!

