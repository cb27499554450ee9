//! Routing of requests to the files of content packages.
//!
//! A request for a path without an extension is a page: it goes to the
//! renderer. A request for a path with an extension is a file of the
//! nearest package above it, and is served only if that package allows it.

use crate::paths::{
    ancestors, clean_path_string, components_begin_with, components_of, copy_chars, extension,
    is_absolute, is_component, is_parent_piece, join, lemma_components_are_plain,
    lemma_joined_components, lemma_joined_within, lemma_spelled_components,
    lemma_spelled_relative, path_ancestors, path_cleaned, path_components, path_extension,
    path_joined, path_spelled, path_within, piece_is_parent, spell,
};
use crate::text::{same_text, string_of, string_views, views};
use vstd::prelude::*;

verus! {

/// What the content store holds of a package, as far as routing reads it.
#[derive(Debug)]
pub struct PackageRow {
    /// Directory of the package on the server.
    pub root_path: String,
    /// Where the package lives on the site.
    pub permalink: String,
    /// Glob patterns, relative to the permalink, of the files it serves.
    pub assets: Vec<String>,
    /// Permalink of the package's compiled entry file.
    pub main: String,
}

/// Where a request goes first.
#[derive(Debug)]
pub enum Route {
    /// To the renderer: the path names a page.
    Render,
    /// To the content store: the path names a file, and these are the
    /// permalinks of the packages that may own it, the nearest first.
    Lookup(Vec<String>),
}

/// What a request for a file comes to.
#[derive(Debug)]
pub enum Resolution {
    /// Nothing is served.
    NotFound,
    /// The file at this path on the server is served, if it exists.
    File(String),
}

/// What a request comes to.
#[derive(Debug)]
pub enum Outcome {
    /// The renderer answers.
    Render,
    /// Nothing is served.
    NotFound,
    /// The file at this path on the server is served, if it exists.
    File(String),
}

/// Whether `pattern` is a well-formed glob pattern, as `glob` judges it.
pub uninterp spec fn glob_compiles(pattern: Seq<char>) -> bool;

/// Whether the well-formed glob pattern `pattern` matches `text`, as
/// `glob` judges it with its default options.
pub uninterp spec fn glob_accepts(pattern: Seq<char>, text: Seq<char>) -> bool;

/// The permalinks that may own the file at `path`: the clean spellings of
/// its proper ancestors, the nearest first.
pub open spec fn candidate_permalinks(path: Seq<char>) -> Seq<Seq<char>> {
    Seq::new(path_ancestors(path).len(), |i: int| path_cleaned(path_ancestors(path)[i]))
}

/// An asset pattern of a package, anchored under the package's permalink.
pub open spec fn anchored_pattern(permalink: Seq<char>, asset: Seq<char>) -> Seq<char> {
    path_cleaned(path_joined(permalink, asset))
}

/// Whether an asset pattern of a package allows the request path.
pub open spec fn asset_permits(permalink: Seq<char>, asset: Seq<char>, path: Seq<char>) -> bool {
    glob_compiles(anchored_pattern(permalink, asset)) && glob_accepts(
        anchored_pattern(permalink, asset),
        path,
    )
}

/// Whether a package allows the request path: the path is its compiled
/// entry file, or one of its asset patterns matches it.
pub open spec fn permitted(row: &PackageRow, path: Seq<char>) -> bool {
    row.main@ == path || exists|i: int|
        0 <= i < row.assets@.len() && asset_permits(row.permalink@, (#[trigger] row.assets@[i])@, path)
}

/// Whether one of the components names the parent directory.
pub open spec fn names_parent(comps: Seq<Seq<char>>) -> bool {
    exists|i: int| 0 <= i < comps.len() && is_parent_piece(#[trigger] comps[i])
}

/// What is left of the request path below the permalink: its components
/// behind those of the permalink. There is nothing left to serve where the
/// path does not lie within the permalink, or where what is left names a
/// parent directory.
pub open spec fn remainder(path: Seq<char>, permalink: Seq<char>) -> Option<Seq<Seq<char>>> {
    let rest = path_components(path).skip(path_components(permalink).len() as int);
    if path_within(path, permalink) && !names_parent(rest) {
        Some(rest)
    } else {
        None
    }
}

/// The file that a package serves for a request: what is left of the
/// request path below the permalink, taken below the package's root.
pub open spec fn served_file(row: &PackageRow, path: Seq<char>) -> Option<Seq<char>> {
    match remainder(path, row.permalink@) {
        Some(rest) => if permitted(row, path) {
            Some(path_joined(row.root_path@, path_spelled(false, rest)))
        } else {
            None
        },
        None => None,
    }
}

/// The index of the first answer among the first `upto` that holds a
/// package, if there is one.
pub open spec fn first_owner(answers: Seq<Option<PackageRow>>, upto: int) -> Option<int>
    decreases upto,
{
    if upto <= 0 {
        None
    } else {
        match first_owner(answers, upto - 1) {
            Some(k) => Some(k),
            None => if answers[upto - 1] is Some {
                Some(upto - 1)
            } else {
                None
            },
        }
    }
}

/// The smaller of two lengths.
pub open spec fn shorter(a: int, b: int) -> int {
    if a < b {
        a
    } else {
        b
    }
}

/// What a request for `path` comes to, given what the content store
/// answered for each candidate permalink in turn. The first package found
/// decides alone: what it does not allow is not found, whatever packages
/// further up might allow.
pub open spec fn outcome_of(path: Seq<char>, answers: Seq<Option<PackageRow>>) -> Option<
    Option<Seq<char>>,
> {
    if path_extension(path) is None {
        None
    } else {
        match first_owner(
            answers,
            shorter(answers.len() as int, candidate_permalinks(path).len() as int),
        ) {
            Some(k) => Some(served_file(&answers[k]->0, path)),
            None => Some(None),
        }
    }
}

/// Compiles `pattern` with `glob::Pattern::new` and, where that succeeds,
/// matches `text` against it with `glob::Pattern::matches`. Returns nothing
/// for a pattern that does not compile.
#[verifier::external_body]
pub(crate) fn glob_matches(pattern: &str, text: &str) -> (r: Option<bool>)
    ensures
        r == if glob_compiles(pattern@) {
            Some(glob_accepts(pattern@, text@))
        } else {
            None::<bool>
        },
{
    match glob::Pattern::new(pattern) {
        Ok(compiled) => Some(compiled.matches(text)),
        Err(_) => None,
    }
}

/// Where a request for `path` goes first.
pub fn route_request(path: &str) -> (route: Route)
    ensures
        match route {
            Route::Render => path_extension(path@) is None,
            Route::Lookup(candidates) => path_extension(path@) is Some && string_views(
                candidates@,
            ) == candidate_permalinks(path@),
        },
{
    match extension(path) {
        None => Route::Render,
        Some(_) => {
            let above = ancestors(path);
            let mut candidates: Vec<String> = Vec::new();
            let mut i: usize = 0;
            while i < above.len()
                invariant
                    i <= above.len(),
                    string_views(above@) == path_ancestors(path@),
                    candidates.len() == i,
                    forall|k: int|
                        0 <= k < i ==> (#[trigger] candidates@[k])@ == path_cleaned(
                            path_ancestors(path@)[k],
                        ),
                decreases above.len() - i,
            {
                assert(above@[i as int]@ == string_views(above@)[i as int]);
                candidates.push(clean_path_string(above[i].as_str()));
                i += 1;
            }
            assert(string_views(candidates@) =~= candidate_permalinks(path@));
            Route::Lookup(candidates)
        },
    }
}

/// Whether one of the patterns matched: `matches` holds for each asset
/// pattern what matching it against the request path gave, and nothing for
/// a pattern that is malformed.
pub open spec fn some_pattern_matched(matches: Seq<Option<bool>>) -> bool {
    exists|i: int| 0 <= i < matches.len() && #[trigger] matches[i] == Some(true)
}

/// Whether a request is allowed, given whether its path is the package's
/// compiled entry file and what matching it against each asset pattern
/// gave. A malformed pattern allows nothing.
pub fn is_allowed(is_entry_file: bool, matches: &Vec<Option<bool>>) -> (r: bool)
    ensures
        r == (is_entry_file || some_pattern_matched(matches@)),
{
    if is_entry_file {
        return true;
    }
    let mut i: usize = 0;
    while i < matches.len()
        invariant
            i <= matches.len(),
            forall|k: int| 0 <= k < i ==> #[trigger] matches@[k] != Some(true),
        decreases matches.len() - i,
    {
        match matches[i] {
            Some(true) => {
                return true;
            },
            _ => {},
        }
        i += 1;
    }
    false
}

/// Whether the package `row` allows the request path.
pub fn can_serve(path: &str, row: &PackageRow) -> (r: bool)
    ensures
        r == permitted(row, path@),
{
    let is_entry_file = same_text(row.main.as_str(), path);
    let mut matches: Vec<Option<bool>> = Vec::new();
    let mut i: usize = 0;
    while i < row.assets.len()
        invariant
            i <= row.assets.len(),
            matches.len() == i,
            forall|k: int|
                0 <= k < i ==> (#[trigger] matches@[k] == Some(true)) == asset_permits(
                    row.permalink@,
                    row.assets@[k]@,
                    path@,
                ),
        decreases row.assets.len() - i,
    {
        let joined = join(row.permalink.as_str(), row.assets[i].as_str());
        let pattern = clean_path_string(joined.as_str());
        matches.push(glob_matches(pattern.as_str(), path));
        i += 1;
    }
    proof {
        if some_pattern_matched(matches@) {
            let k = choose|k: int| 0 <= k < matches@.len() && #[trigger] matches@[k] == Some(true);
            assert(asset_permits(row.permalink@, row.assets@[k]@, path@));
        }
        if permitted(row, path@) && row.main@ != path@ {
            let k = choose|k: int|
                0 <= k < row.assets@.len() && asset_permits(
                    row.permalink@,
                    (#[trigger] row.assets@[k])@,
                    path@,
                );
            assert(matches@[k] == Some(true));
        }
    }
    is_allowed(is_entry_file, &matches)
}

/// The file that a package serves for a request that it allows, as far as
/// something is left of the request path below the permalink.
pub open spec fn file_below_root(row: &PackageRow, path: Seq<char>) -> Option<Seq<char>> {
    match remainder(path, row.permalink@) {
        Some(rest) => Some(path_joined(row.root_path@, path_spelled(false, rest))),
        None => None,
    }
}

/// What a request for `path` comes to in the package `row`, given whether
/// the package allows the path.
///
/// A file that is served lies within the package's root: its components
/// are those of the root followed by what is left of the request path below
/// the permalink, none of which names a parent directory.
pub fn serve_if(path: &str, row: &PackageRow, allowed: bool) -> (r: Resolution)
    ensures
        match r {
            Resolution::NotFound => !allowed || file_below_root(row, path@) is None,
            Resolution::File(file) => allowed && file_below_root(row, path@) == Some(file@)
                && path_within(file@, row.root_path@) && path_components(file@)
                == path_components(row.root_path@) + remainder(path@, row.permalink@)->0,
        },
{
    if !allowed {
        return Resolution::NotFound;
    }
    if is_absolute(path) != is_absolute(row.permalink.as_str()) {
        return Resolution::NotFound;
    }
    let pc = components_of(path);
    let bc = components_of(row.permalink.as_str());
    if !components_begin_with(&pc, &bc) {
        return Resolution::NotFound;
    }
    let mut rest: Vec<Vec<char>> = Vec::new();
    let mut k: usize = bc.len();
    proof {
        assert(views(rest@) =~= views(pc@).subrange(bc.len() as int, bc.len() as int));
    }
    while k < pc.len()
        invariant
            bc.len() <= k <= pc.len(),
            views(pc@) == path_components(path@),
            views(bc@) == path_components(row.permalink@),
            path_within(path@, row.permalink@),
            views(rest@) == views(pc@).subrange(bc.len() as int, k as int),
            !names_parent(views(rest@)),
        decreases pc.len() - k,
    {
        if piece_is_parent(&pc[k]) {
            proof {
                let all = views(pc@).skip(bc.len() as int);
                assert(all[k - bc.len()] == pc@[k as int]@);
                assert(is_parent_piece(all[k - bc.len()]));
            }
            return Resolution::NotFound;
        }
        let ghost before = views(rest@);
        rest.push(copy_chars(&pc[k]));
        proof {
            assert(views(rest@) =~= before.push(pc@[k as int]@));
            assert(!names_parent(views(rest@))) by {
                if names_parent(views(rest@)) {
                    let i = choose|i: int|
                        0 <= i < views(rest@).len() && is_parent_piece(
                            #[trigger] views(rest@)[i],
                        );
                    if i < before.len() {
                        assert(is_parent_piece(before[i]));
                    }
                }
            }
        }
        k += 1;
    }
    proof {
        assert(views(pc@).subrange(bc.len() as int, pc.len() as int) =~= views(pc@).skip(
            bc.len() as int,
        ));
    }
    let spelled = spell(false, &rest, rest.len());
    let relative = string_of(&spelled);
    let file = join(row.root_path.as_str(), relative.as_str());
    proof {
        let comps = views(rest@);
        assert(comps.take(rest.len() as int) =~= comps);
        lemma_components_are_plain(path@);
        assert forall|i: int| 0 <= i < comps.len() implies is_component(#[trigger] comps[i])
            && !comps[i].contains('/') by {
            assert(comps[i] == path_components(path@)[bc.len() + i]);
        }
        lemma_spelled_relative(comps);
        lemma_spelled_components(comps);
        lemma_joined_components(row.root_path@, relative@);
        lemma_joined_within(row.root_path@, relative@);
    }
    Resolution::File(file)
}

/// What a request for `path` comes to in the package `row`, the nearest
/// package above the path: the file below the package's root, if the
/// package allows the path.
pub fn resolve_in_package(path: &str, row: &PackageRow) -> (r: Resolution)
    ensures
        match r {
            Resolution::NotFound => served_file(row, path@) is None,
            Resolution::File(file) => served_file(row, path@) == Some(file@) && path_within(
                file@,
                row.root_path@,
            ) && path_components(file@) == path_components(row.root_path@) + remainder(
                path@,
                row.permalink@,
            )->0,
        },
{
    let allowed = can_serve(path, row);
    serve_if(path, row, allowed)
}

/// What a request for `path` comes to, given what the content store
/// answered for its candidate permalinks, the nearest first. Answers beyond
/// the candidates are not read.
pub fn handler_renderer(path: &str, answers: &Vec<Option<PackageRow>>) -> (r: Outcome)
    ensures
        match r {
            Outcome::Render => outcome_of(path@, answers@) is None,
            Outcome::NotFound => outcome_of(path@, answers@) == Some(None::<Seq<char>>),
            Outcome::File(file) => outcome_of(path@, answers@) == Some(Some(file@)),
        },
{
    match route_request(path) {
        Route::Render => Outcome::Render,
        Route::Lookup(candidates) => {
            let n = if answers.len() < candidates.len() {
                answers.len()
            } else {
                candidates.len()
            };
            let mut i: usize = 0;
            while i < n
                invariant
                    i <= n <= answers.len(),
                    path_extension(path@) is Some,
                    n == shorter(answers@.len() as int, candidate_permalinks(path@).len() as int),
                    first_owner(answers@, i as int) is None,
                decreases n - i,
            {
                match &answers[i] {
                    Some(row) => {
                        assert(first_owner(answers@, i + 1) == Some(i as int));
                        proof {
                            lemma_first_owner_stays(answers@, i + 1, n as int);
                        }
                        return match resolve_in_package(path, row) {
                            Resolution::NotFound => Outcome::NotFound,
                            Resolution::File(file) => Outcome::File(file),
                        };
                    },
                    None => {},
                }
                i += 1;
            }
            Outcome::NotFound
        },
    }
}

/// Once a package is found, looking at more answers finds the same one.
pub proof fn lemma_first_owner_stays(answers: Seq<Option<PackageRow>>, upto: int, more: int)
    requires
        upto <= more,
        first_owner(answers, upto) is Some,
    ensures
        first_owner(answers, more) == first_owner(answers, upto),
    decreases more - upto,
{
    if upto < more {
        lemma_first_owner_stays(answers, upto, more - 1);
    }
}

} // verus!
