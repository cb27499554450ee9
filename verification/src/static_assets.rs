//! Source-file fingerprints and static assets.
//!
//! A fingerprint list is kept sorted by path, so that two lists of the same
//! files compare equal whatever order the files were found in.

use crate::error::{FoilError, Result};
use crate::paths::{
    backslashes_to_slashes, join, lexically_cleaned, lexiclean_path, path_joined,
    path_relative_to, path_within, slash_form, slash_path, slashes_only, strip_prefix,
};
use crate::text::{lemma_before_total, lemma_not_after_transitive, text_before, text_is_before};
use crate::time::ModifiedTime;
use vstd::prelude::*;

verus! {

/// What a fingerprint says: a path, and when the file there was last
/// modified.
pub struct FileMark {
    pub path: Seq<char>,
    pub modified_date: ModifiedTime,
}

/// The fingerprint of one source file.
#[derive(Debug)]
pub struct FoilFile {
    /// Path of the file on the server, spelled with `/`.
    pub path: String,
    /// When the file was last modified.
    pub modified_date: ModifiedTime,
}

impl View for FoilFile {
    type V = FileMark;

    open spec fn view(&self) -> FileMark {
        FileMark { path: self.path@, modified_date: self.modified_date }
    }
}

impl FoilFile {
    /// A copy of the fingerprint.
    pub fn copy(&self) -> (out: FoilFile)
        ensures
            out@ == self@,
    {
        FoilFile { path: self.path.clone(), modified_date: self.modified_date }
    }
}

/// What a static asset says: where the file is on the server, where it is
/// on the site, and when it was last modified.
pub struct AssetMark {
    pub path: Seq<char>,
    pub permalink: Seq<char>,
    pub modified_date: ModifiedTime,
}

/// A file that the site serves as it is.
#[derive(Debug)]
pub struct StaticAsset {
    /// Path of the file on the server, spelled with `/`.
    pub path: String,
    /// Permalink of the file on the site.
    pub permalink: String,
    /// When the file was last modified.
    pub modified_date: ModifiedTime,
}

impl View for StaticAsset {
    type V = AssetMark;

    open spec fn view(&self) -> AssetMark {
        AssetMark {
            path: self.path@,
            permalink: self.permalink@,
            modified_date: self.modified_date,
        }
    }
}

/// One match of an asset pattern, as the file system reported it.
#[derive(Debug)]
pub struct FoundEntry {
    /// Path of the entry on the server.
    pub path: String,
    /// Whether the entry is a regular file.
    pub is_file: bool,
    /// When the entry was last modified.
    pub modified_date: ModifiedTime,
}

/// The fingerprints that a list of files holds.
pub open spec fn marks(files: Seq<FoilFile>) -> Seq<FileMark> {
    Seq::new(files.len(), |i: int| files[i]@)
}

/// The assets that a list holds.
pub open spec fn asset_marks(assets: Seq<StaticAsset>) -> Seq<AssetMark> {
    Seq::new(assets.len(), |i: int| assets[i]@)
}

/// `x` put into the sorted list `sorted`: behind every mark whose path is
/// not after its own.
pub open spec fn placed(sorted: Seq<FileMark>, x: FileMark) -> Seq<FileMark>
    decreases sorted.len(),
{
    if sorted.len() == 0 {
        seq![x]
    } else if text_before(x.path, sorted.last().path) {
        placed(sorted.drop_last(), x).push(sorted.last())
    } else {
        sorted.push(x)
    }
}

/// The marks of `s` in the order of their paths. Marks with one path keep
/// the order they had.
pub open spec fn sorted_by_path(s: Seq<FileMark>) -> Seq<FileMark>
    decreases s.len(),
{
    if s.len() == 0 {
        Seq::<FileMark>::empty()
    } else {
        placed(sorted_by_path(s.drop_last()), s.last())
    }
}

/// No mark's path comes after the path of a later mark.
pub open spec fn is_path_sorted(s: Seq<FileMark>) -> bool {
    forall|i: int, j: int| 0 <= i < j < s.len() ==> !text_before(s[j].path, s[i].path)
}

/// Each mark's path comes strictly before the path of every later mark.
pub open spec fn is_strictly_path_sorted(s: Seq<FileMark>) -> bool {
    forall|i: int, j: int| 0 <= i < j < s.len() ==> text_before(s[i].path, s[j].path)
}

/// No path is marked twice.
pub open spec fn paths_distinct(s: Seq<FileMark>) -> bool {
    forall|i: int, j: int| 0 <= i < s.len() && 0 <= j < s.len() && i != j ==> s[i].path != s[j].path
}

/// `x` stands at index `p` of the list that `placed` gives, where `p` is
/// the first index behind the marks whose path is not after that of `x`.
pub proof fn lemma_placed_at(sorted: Seq<FileMark>, x: FileMark, p: int)
    requires
        0 <= p <= sorted.len(),
        forall|j: int| p <= j < sorted.len() ==> text_before(x.path, sorted[j].path),
        p > 0 ==> !text_before(x.path, sorted[p - 1].path),
    ensures
        placed(sorted, x) == sorted.insert(p, x),
    decreases sorted.len(),
{
    if sorted.len() == 0 {
        assert(seq![x] =~= sorted.insert(0, x));
    } else if p == sorted.len() {
        assert(sorted.push(x) =~= sorted.insert(p, x));
    } else {
        lemma_placed_at(sorted.drop_last(), x, p);
        assert(sorted.drop_last().insert(p, x).push(sorted.last()) =~= sorted.insert(p, x));
    }
}

/// The index at which `placed` puts `x`.
pub open spec fn place_of(sorted: Seq<FileMark>, x: FileMark) -> int
    decreases sorted.len(),
{
    if sorted.len() == 0 {
        0
    } else if text_before(x.path, sorted.last().path) {
        place_of(sorted.drop_last(), x)
    } else {
        sorted.len() as int
    }
}

/// `placed` inserts `x` at `place_of`, and leaves the other marks in order.
pub proof fn lemma_placed_is_insert(sorted: Seq<FileMark>, x: FileMark)
    ensures
        0 <= place_of(sorted, x) <= sorted.len(),
        placed(sorted, x) == sorted.insert(place_of(sorted, x), x),
        place_of(sorted, x) > 0 ==> !text_before(x.path, sorted[place_of(sorted, x) - 1].path),
    decreases sorted.len(),
{
    if sorted.len() == 0 {
        assert(seq![x] =~= sorted.insert(0, x));
    } else if text_before(x.path, sorted.last().path) {
        let init = sorted.drop_last();
        lemma_placed_is_insert(init, x);
        let p = place_of(init, x);
        assert(init.insert(p, x).push(sorted.last()) =~= sorted.insert(p, x));
    } else {
        assert(sorted.push(x) =~= sorted.insert(sorted.len() as int, x));
    }
}

/// Putting a mark into a sorted list leaves it sorted.
pub proof fn lemma_placed_sorted(sorted: Seq<FileMark>, x: FileMark)
    requires
        is_path_sorted(sorted),
    ensures
        is_path_sorted(placed(sorted, x)),
    decreases sorted.len(),
{
    let out = placed(sorted, x);
    if sorted.len() == 0 {
    } else if text_before(x.path, sorted.last().path) {
        let init = sorted.drop_last();
        assert(is_path_sorted(init)) by {
            assert forall|i: int, j: int| 0 <= i < j < init.len() implies !text_before(
                init[j].path,
                init[i].path,
            ) by {
                assert(!text_before(sorted[j].path, sorted[i].path));
            }
        }
        lemma_placed_sorted(init, x);
        lemma_placed_is_insert(init, x);
        let p = place_of(init, x);
        let mid = placed(init, x);
        assert forall|i: int, j: int| 0 <= i < j < out.len() implies !text_before(
            out[j].path,
            out[i].path,
        ) by {
            if j < mid.len() {
                assert(!text_before(mid[j].path, mid[i].path));
            } else {
                // out[j] is the last mark of `sorted`
                if i == p {
                    lemma_before_total(x.path, sorted.last().path);
                } else if i < p {
                    assert(mid[i] == init[i]);
                    assert(!text_before(sorted[sorted.len() - 1].path, sorted[i].path));
                } else {
                    assert(mid[i] == init[i - 1]);
                    assert(!text_before(sorted[sorted.len() - 1].path, sorted[i - 1].path));
                }
            }
        }
    } else {
        assert forall|i: int, j: int| 0 <= i < j < out.len() implies !text_before(
            out[j].path,
            out[i].path,
        ) by {
            if j < sorted.len() {
                assert(!text_before(sorted[j].path, sorted[i].path));
            } else if i < sorted.len() - 1 {
                assert(!text_before(sorted[sorted.len() - 1].path, sorted[i].path));
                lemma_not_after_transitive(sorted[i].path, sorted.last().path, x.path);
            }
        }
    }
}

/// Sorting gives a sorted list that holds each mark as often as the list
/// that was sorted.
pub proof fn lemma_sorted_by_path(s: Seq<FileMark>)
    ensures
        is_path_sorted(sorted_by_path(s)),
        sorted_by_path(s).to_multiset() == s.to_multiset(),
        sorted_by_path(s).len() == s.len(),
    decreases s.len(),
{
    broadcast use vstd::seq_lib::to_multiset_insert, vstd::seq_lib::to_multiset_build;

    if s.len() > 0 {
        let init = s.drop_last();
        lemma_sorted_by_path(init);
        lemma_placed_sorted(sorted_by_path(init), s.last());
        lemma_placed_is_insert(sorted_by_path(init), s.last());
        assert(init.push(s.last()) =~= s);
    } else {
        assert(sorted_by_path(s) =~= s);
    }
}

/// A sorted list is what sorting it gives.
pub proof fn lemma_sorting_keeps_sorted(s: Seq<FileMark>)
    requires
        is_path_sorted(s),
    ensures
        sorted_by_path(s) == s,
    decreases s.len(),
{
    if s.len() > 0 {
        let init = s.drop_last();
        assert(is_path_sorted(init)) by {
            assert forall|i: int, j: int| 0 <= i < j < init.len() implies !text_before(
                init[j].path,
                init[i].path,
            ) by {
                assert(!text_before(s[j].path, s[i].path));
            }
        }
        lemma_sorting_keeps_sorted(init);
        if init.len() > 0 {
            assert(!text_before(s[s.len() - 1].path, s[s.len() - 2].path));
        }
        assert(init.push(s.last()) =~= s);
    } else {
        assert(sorted_by_path(s) =~= s);
    }
}

/// Sorting twice is sorting once.
pub proof fn lemma_sort_idempotent(s: Seq<FileMark>)
    ensures
        sorted_by_path(sorted_by_path(s)) == sorted_by_path(s),
{
    lemma_sorted_by_path(s);
    lemma_sorting_keeps_sorted(sorted_by_path(s));
}

/// Two strictly sorted lists with the same marks are one list.
pub proof fn lemma_strictly_sorted_unique(a: Seq<FileMark>, b: Seq<FileMark>)
    requires
        is_strictly_path_sorted(a),
        is_strictly_path_sorted(b),
        forall|x: FileMark|
            #![trigger a.contains(x)]
            #![trigger b.contains(x)]
            a.contains(x) <==> b.contains(x),
    ensures
        a == b,
    decreases a.len(),
{
    if a.len() == 0 {
        if b.len() > 0 {
            assert(b.contains(b[0]));
        }
        assert(a =~= b);
    } else if b.len() == 0 {
        assert(a.contains(a[0]));
    } else {
        let x = a.last();
        let y = b.last();
        assert(a.contains(x));
        assert(b.contains(y));
        let i = choose|i: int| 0 <= i < b.len() && b[i] == x;
        let j = choose|j: int| 0 <= j < a.len() && a[j] == y;
        // x is in b, so it is not after y; y is in a, so it is not after x.
        if i < b.len() - 1 {
            assert(text_before(b[i].path, b[b.len() - 1].path));
        }
        if j < a.len() - 1 {
            assert(text_before(a[j].path, a[a.len() - 1].path));
        }
        lemma_before_total(x.path, y.path);
        assert(x == y);
        let a0 = a.drop_last();
        let b0 = b.drop_last();
        assert(is_strictly_path_sorted(a0)) by {
            assert forall|s: int, t: int| 0 <= s < t < a0.len() implies text_before(
                a0[s].path,
                a0[t].path,
            ) by {
                assert(text_before(a[s].path, a[t].path));
            }
        }
        assert(is_strictly_path_sorted(b0)) by {
            assert forall|s: int, t: int| 0 <= s < t < b0.len() implies text_before(
                b0[s].path,
                b0[t].path,
            ) by {
                assert(text_before(b[s].path, b[t].path));
            }
        }
        assert forall|z: FileMark|
            #![trigger a0.contains(z)]
            #![trigger b0.contains(z)]
            a0.contains(z) <==> b0.contains(z) by {
            if a0.contains(z) {
                let s = choose|s: int| 0 <= s < a0.len() && a0[s] == z;
                assert(a[s] == z);
                assert(a.contains(z));
                assert(text_before(a[s].path, a[a.len() - 1].path));
                lemma_before_total(z.path, x.path);
                let t = choose|t: int| 0 <= t < b.len() && b[t] == z;
                assert(t < b.len() - 1);
                assert(b0[t] == z);
            }
            if b0.contains(z) {
                let s = choose|s: int| 0 <= s < b0.len() && b0[s] == z;
                assert(b[s] == z);
                assert(b.contains(z));
                assert(text_before(b[s].path, b[b.len() - 1].path));
                lemma_before_total(z.path, y.path);
                let t = choose|t: int| 0 <= t < a.len() && a[t] == z;
                assert(t < a.len() - 1);
                assert(a0[t] == z);
            }
        }
        lemma_strictly_sorted_unique(a0, b0);
        assert(a =~= a0.push(x));
        assert(b =~= b0.push(y));
    }
}

/// Sorting keeps the marks, and keeps their paths distinct.
pub proof fn lemma_sorted_keeps_marks(s: Seq<FileMark>)
    ensures
        forall|x: FileMark|
            #![trigger sorted_by_path(s).contains(x)]
            #![trigger s.contains(x)]
            sorted_by_path(s).contains(x) <==> s.contains(x),
        paths_distinct(s) ==> paths_distinct(sorted_by_path(s)),
    decreases s.len(),
{
    if s.len() == 0 {
        assert(sorted_by_path(s) =~= s);
    } else {
        let init = s.drop_last();
        let last = s.last();
        let si = sorted_by_path(init);
        lemma_sorted_keeps_marks(init);
        lemma_placed_is_insert(si, last);
        let p = place_of(si, last);
        let out = sorted_by_path(s);
        assert(out == si.insert(p, last));
        assert forall|x: FileMark|
            #![trigger out.contains(x)]
            #![trigger s.contains(x)]
            out.contains(x) <==> s.contains(x) by {
            if out.contains(x) {
                let k = choose|k: int| 0 <= k < out.len() && out[k] == x;
                if k == p {
                    assert(s[s.len() - 1] == x);
                } else {
                    let k0 = if k < p {
                        k
                    } else {
                        k - 1
                    };
                    assert(si[k0] == x);
                    assert(si.contains(x));
                    let t = choose|t: int| 0 <= t < init.len() && init[t] == x;
                    assert(s[t] == x);
                }
            }
            if s.contains(x) {
                let t = choose|t: int| 0 <= t < s.len() && s[t] == x;
                if t == s.len() - 1 {
                    assert(out[p] == x);
                } else {
                    assert(init[t] == x);
                    assert(init.contains(x));
                    let k0 = choose|k0: int| 0 <= k0 < si.len() && si[k0] == x;
                    if k0 < p {
                        assert(out[k0] == x);
                    } else {
                        assert(out[k0 + 1] == x);
                    }
                }
            }
        }
        if paths_distinct(s) {
            assert(paths_distinct(init)) by {
                assert forall|i: int, j: int|
                    0 <= i < init.len() && 0 <= j < init.len() && i != j implies init[i].path
                    != init[j].path by {
                    assert(s[i].path != s[j].path);
                }
            }
            assert forall|k: int| 0 <= k < si.len() implies si[k].path != last.path by {
                assert(si.contains(si[k]));
                let t = choose|t: int| 0 <= t < init.len() && init[t] == si[k];
                assert(s[t].path != s[s.len() - 1].path);
            }
            assert forall|i: int, j: int|
                0 <= i < out.len() && 0 <= j < out.len() && i != j implies out[i].path
                != out[j].path by {
                let i0 = if i < p {
                    i
                } else {
                    i - 1
                };
                let j0 = if j < p {
                    j
                } else {
                    j - 1
                };
                if i == p {
                    assert(out[j] == si[j0]);
                } else if j == p {
                    assert(out[i] == si[i0]);
                } else {
                    assert(out[i] == si[i0]);
                    assert(out[j] == si[j0]);
                    assert(si[i0].path != si[j0].path);
                }
            }
        }
    }
}

/// A sorted list of distinct paths is strictly sorted.
pub proof fn lemma_sorted_distinct_is_strict(s: Seq<FileMark>)
    requires
        is_path_sorted(s),
        paths_distinct(s),
    ensures
        is_strictly_path_sorted(s),
{
    assert forall|i: int, j: int| 0 <= i < j < s.len() implies text_before(
        s[i].path,
        s[j].path,
    ) by {
        assert(!text_before(s[j].path, s[i].path));
        assert(s[i].path != s[j].path);
        lemma_before_total(s[i].path, s[j].path);
    }
}

/// Two listings of the same files, neither naming a path twice, sort to
/// the same fingerprint list, whatever order each listing came in.
pub proof fn lemma_sort_ignores_order(a: Seq<FileMark>, b: Seq<FileMark>)
    requires
        a.to_multiset() == b.to_multiset(),
        paths_distinct(a),
        paths_distinct(b),
    ensures
        sorted_by_path(a) == sorted_by_path(b),
        is_path_sorted(sorted_by_path(a)),
{
    broadcast use vstd::seq_lib::to_multiset_contains;

    lemma_sorted_by_path(a);
    lemma_sorted_by_path(b);
    lemma_sorted_keeps_marks(a);
    lemma_sorted_keeps_marks(b);
    lemma_sorted_distinct_is_strict(sorted_by_path(a));
    lemma_sorted_distinct_is_strict(sorted_by_path(b));
    assert forall|x: FileMark|
        #![trigger sorted_by_path(a).contains(x)]
        #![trigger sorted_by_path(b).contains(x)]
        sorted_by_path(a).contains(x) <==> sorted_by_path(b).contains(x) by {
        assert(a.contains(x) <==> a.to_multiset().count(x) > 0);
        assert(b.contains(x) <==> b.to_multiset().count(x) > 0);
    }
    lemma_strictly_sorted_unique(sorted_by_path(a), sorted_by_path(b));
}

/// Sorts the fingerprints by path. Fingerprints with one path keep the
/// order they had.
pub fn sort_by_path(files: &mut Vec<FoilFile>)
    ensures
        marks(final(files)@) == sorted_by_path(marks(old(files)@)),
        is_path_sorted(marks(final(files)@)),
        marks(final(files)@).to_multiset() == marks(old(files)@).to_multiset(),
{
    let mut out: Vec<FoilFile> = Vec::new();
    let mut i: usize = 0;
    proof {
        assert(marks(files@).take(0) =~= Seq::<FileMark>::empty());
        assert(marks(out@) =~= Seq::<FileMark>::empty());
    }
    while i < files.len()
        invariant
            i <= files.len(),
            files@ == old(files)@,
            marks(out@) == sorted_by_path(marks(files@).take(i as int)),
        decreases files.len() - i,
    {
        let x = files[i].copy();
        let mut p: usize = out.len();
        while p > 0 && text_is_before(x.path.as_str(), out[p - 1].path.as_str())
            invariant
                p <= out.len(),
                forall|j: int| p <= j < out.len() ==> text_before(x@.path, marks(out@)[j].path),
            decreases p,
        {
            p -= 1;
        }
        proof {
            let before = marks(out@);
            if p > 0 {
                assert(before[p - 1].path == out@[p - 1].path@);
            }
            lemma_placed_at(before, x@, p as int);
            assert(marks(files@).take(i + 1).drop_last() =~= marks(files@).take(i as int));
            assert(marks(files@).take(i + 1).last() == x@);
        }
        let ghost before = marks(out@);
        out.insert(p, x);
        proof {
            assert(marks(out@) =~= before.insert(p as int, x@));
        }
        i += 1;
    }
    proof {
        assert(marks(files@).take(files.len() as int) =~= marks(files@));
        lemma_sorted_by_path(marks(files@));
    }
    *files = out;
}

/// The pattern to search the file system with for the asset pattern
/// `asset` of the package at `base_path`: the two joined, lexically
/// cleaned, and spelled with `/`.
pub open spec fn search_pattern(base_path: Seq<char>, asset: Seq<char>) -> Seq<char> {
    slash_form(lexically_cleaned(path_joined(base_path, asset)))
}

/// The pattern to search the file system with for one asset pattern of a
/// package.
pub fn asset_search_pattern(base_path: &str, asset: &str) -> (pattern: String)
    ensures
        pattern@ == search_pattern(base_path@, asset@),
{
    let joined = join(base_path, asset);
    let cleaned = lexiclean_path(joined.as_str());
    slash_path(cleaned.as_str())
}

/// The asset that the entry `entry` found below `base_path` becomes in a
/// package at `permalink`: its permalink is the package's, followed by the
/// entry's path relative to the package.
pub open spec fn asset_of(base_path: Seq<char>, permalink: Seq<char>, entry: FoundEntry)
    -> AssetMark {
    AssetMark {
        path: slash_form(entry.path@),
        permalink: slashes_only(path_joined(permalink, path_relative_to(entry.path@, base_path))),
        modified_date: entry.modified_date,
    }
}

/// The assets of the regular files among `found`, in order.
pub open spec fn assets_of(base_path: Seq<char>, permalink: Seq<char>, found: Seq<FoundEntry>)
    -> Seq<AssetMark>
    decreases found.len(),
{
    if found.len() == 0 {
        Seq::<AssetMark>::empty()
    } else if found.last().is_file {
        assets_of(base_path, permalink, found.drop_last()).push(
            asset_of(base_path, permalink, found.last()),
        )
    } else {
        assets_of(base_path, permalink, found.drop_last())
    }
}

/// Every entry of `found` is `base_path` or lies below it.
pub open spec fn all_within(found: Seq<FoundEntry>, base_path: Seq<char>) -> bool {
    forall|i: int| 0 <= i < found.len() ==> path_within(#[trigger] found[i].path@, base_path)
}

/// Turns what the asset patterns of a package matched into static assets
/// and appends them to `assets`: one asset for each regular file, in the
/// order found.
///
/// Fails, and leaves `assets` as it was, when an entry does not lie within
/// `base_path`.
pub fn build_static_assets(
    base_path: &str,
    permalink: &str,
    found: &Vec<FoundEntry>,
    assets: &mut Vec<StaticAsset>,
) -> (r: Result<()>)
    ensures
        r is Ok <==> all_within(found@, base_path@),
        r is Ok ==> asset_marks(final(assets)@) == asset_marks(old(assets)@) + assets_of(
            base_path@,
            permalink@,
            found@,
        ),
        r is Err ==> final(assets)@ == old(assets)@,
        r matches Err(e) ==> e matches FoilError::OutsideRoot(_),
{
    let mut fresh: Vec<StaticAsset> = Vec::new();
    let mut i: usize = 0;
    proof {
        assert(found@.take(0) =~= Seq::<FoundEntry>::empty());
        assert(asset_marks(fresh@) =~= Seq::<AssetMark>::empty());
    }
    while i < found.len()
        invariant
            i <= found.len(),
            all_within(found@.take(i as int), base_path@),
            asset_marks(fresh@) == assets_of(base_path@, permalink@, found@.take(i as int)),
        decreases found.len() - i,
    {
        let entry = &found[i];
        proof {
            assert(found@.take(i + 1).drop_last() =~= found@.take(i as int));
            assert(found@.take(i + 1).last() == found@[i as int]);
        }
        match strip_prefix(entry.path.as_str(), base_path) {
            None => {
                return Err(FoilError::OutsideRoot(entry.path.clone()));
            },
            Some(relative) => {
                if entry.is_file {
                    let joined = join(permalink, relative.as_str());
                    let asset = StaticAsset {
                        path: slash_path(entry.path.as_str()),
                        permalink: backslashes_to_slashes(joined.as_str()),
                        modified_date: entry.modified_date,
                    };
                    let ghost before = asset_marks(fresh@);
                    fresh.push(asset);
                    proof {
                        assert(asset_marks(fresh@) =~= before.push(
                            asset_of(base_path@, permalink@, *entry),
                        ));
                    }
                }
                proof {
                    assert forall|k: int| 0 <= k < i + 1 implies path_within(
                        #[trigger] found@.take(i + 1)[k].path@,
                        base_path@,
                    ) by {
                        if k < i {
                            assert(found@.take(i as int)[k] == found@[k]);
                        }
                    }
                }
            },
        }
        i += 1;
    }
    proof {
        assert(found@.take(found.len() as int) =~= found@);
    }
    let ghost before = asset_marks(assets@);
    let ghost added = asset_marks(fresh@);
    assets.append(&mut fresh);
    proof {
        assert(asset_marks(assets@) =~= before + added);
    }
    Ok(())
}

} // verus!
