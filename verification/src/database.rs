//! What goes to the content store, and what is cleared from it.

use crate::package_schema::{author_marks, AuthorMark, NodeAuthor};
use crate::paths::{clean_path_string, join, path_cleaned, path_joined};
use crate::resolver::{js_main_permalink, Foil};
use crate::text::{chars_of, has_suffix, same_text, string_of, string_views};
use crate::time::ModifiedTime;
use vstd::prelude::*;
use vstd::string::StringExecFns;

verus! {

/// The row of a package in the content store.
#[derive(Debug)]
pub struct PostRow {
    pub name: String,
    pub permalink: String,
    pub title: String,
    pub authors: Vec<NodeAuthor>,
    pub description: String,
    pub keywords: Vec<String>,
    pub covers: Vec<String>,
    /// Permalink of the compiled entry file.
    pub main: String,
    pub date_published: ModifiedTime,
    pub date_modified: ModifiedTime,
    /// Clean spelling of the output directory.
    pub output_path: String,
    /// Clean spelling of the root directory.
    pub root_path: String,
    pub public_modules: Vec<String>,
    pub rss: Vec<String>,
    pub assets: Vec<String>,
}

/// What the pass found out about a stored row when it looked at the row's
/// directory.
#[derive(Debug)]
pub struct RowCheck {
    /// Identifier of the row.
    pub id: i32,
    /// Permalink that the row is stored under.
    pub permalink: String,
    /// Whether the directory still holds a descriptor.
    pub descriptor_exists: bool,
    /// Whether the directory still holds build metadata.
    pub metadata_exists: bool,
    /// The permalink that the descriptor names, where it could be read.
    pub descriptor_permalink: Option<String>,
}

/// An author as a row literal of the store's author type.
pub open spec fn author_sql(author: AuthorMark) -> Seq<char> {
    "('"@ + author.name + "', '"@ + author.email + "', '"@ + author.url + "')"@
}

/// A list of authors as row literals, separated by commas.
pub open spec fn authors_sql(authors: Seq<AuthorMark>) -> Seq<char>
    decreases authors.len(),
{
    if authors.len() == 0 {
        Seq::<char>::empty()
    } else if authors.len() == 1 {
        author_sql(authors[0])
    } else {
        authors_sql(authors.drop_last()) + ","@ + author_sql(authors.last())
    }
}

/// Whether a store identifier names a row that exists: identifiers of rows
/// are positive.
pub open spec fn names_row(id: i32) -> bool {
    id > 0
}

/// The asset pattern without the `*` at its end, if it has one.
pub open spec fn asset_directory(asset: Seq<char>) -> Seq<char> {
    if has_suffix(asset, seq!['*']) {
        asset.drop_last()
    } else {
        asset
    }
}

/// Where the files of an asset pattern lie on the server: the pattern,
/// without a `*` at its end, below the package's root, cleanly spelled.
pub open spec fn asset_server_path(root_path: Seq<char>, asset: Seq<char>) -> Seq<char> {
    path_cleaned(path_joined(root_path, asset_directory(asset)))
}

/// Whether a stored row is stale: its descriptor or its build metadata is
/// gone, its descriptor cannot be read, or its descriptor names another
/// permalink than the row's.
pub open spec fn is_stale(check: &RowCheck) -> bool {
    ||| !check.descriptor_exists
    ||| !check.metadata_exists
    ||| match check.descriptor_permalink {
        Some(permalink) => permalink@ != check.permalink@,
        None => true,
    }
}

/// The identifiers of the stale rows among the first `upto`, in order.
pub open spec fn stale_ids(checks: Seq<RowCheck>, upto: int) -> Seq<i32>
    decreases upto,
{
    if upto <= 0 {
        Seq::<i32>::empty()
    } else if is_stale(&checks[upto - 1]) {
        stale_ids(checks, upto - 1).push(checks[upto - 1].id)
    } else {
        stale_ids(checks, upto - 1)
    }
}

/// The authors as row literals of the store's author type, separated by
/// commas.
pub fn authors_as_sql(authors: &Vec<NodeAuthor>) -> (out: String)
    ensures
        out@ == authors_sql(author_marks(authors@)),
{
    let mut out = String::new();
    let mut i: usize = 0;
    proof {
        assert(author_marks(authors@).take(0) =~= Seq::<AuthorMark>::empty());
    }
    while i < authors.len()
        invariant
            i <= authors.len(),
            out@ == authors_sql(author_marks(authors@).take(i as int)),
        decreases authors.len() - i,
    {
        proof {
            assert(author_marks(authors@).take(i + 1).drop_last() =~= author_marks(authors@).take(
                i as int,
            ));
            assert(author_marks(authors@).take(i + 1).last() == authors@[i as int]@);
            assert(author_marks(authors@).take(i + 1)[0] == author_marks(authors@)[0]);
        }
        let ghost before = out@;
        if i > 0 {
            out.append(",");
        }
        out.append("('");
        out.append(authors[i].name.as_str());
        out.append("', '");
        out.append(authors[i].email.as_str());
        out.append("', '");
        out.append(authors[i].url.as_str());
        out.append("')");
        proof {
            let literal = author_sql(authors@[i as int]@);
            if i > 0 {
                assert(out@ =~= before + ","@ + literal);
            } else {
                assert(before =~= Seq::<char>::empty());
                assert(out@ =~= literal);
            }
        }
        i += 1;
    }
    proof {
        assert(author_marks(authors@).take(authors.len() as int) =~= author_marks(authors@));
    }
    out
}

/// Whether the store already holds the row that a lookup gave `id` for,
/// so that the row is updated and not inserted.
pub fn row_exists(id: i32) -> (r: bool)
    ensures
        r == names_row(id),
{
    id > 0
}

/// Where the files of the asset pattern `asset` lie on the server.
pub fn asset_path(root_path: &str, asset: &str) -> (path: String)
    ensures
        path@ == asset_server_path(root_path@, asset@),
{
    let mut chars = chars_of(asset);
    let n = chars.len();
    if n > 0 && chars[n - 1] == '*' {
        proof {
            assert(chars@.subrange(n - 1, n as int) =~= seq!['*']);
        }
        chars.pop();
    } else {
        proof {
            if n > 0 {
                assert(chars@.subrange(n - 1, n as int)[0] == chars@[n - 1]);
            }
        }
    }
    let directory = string_of(&chars);
    let joined = join(root_path, directory.as_str());
    clean_path_string(joined.as_str())
}

/// The row that the content store holds for `foil`.
pub fn update_foils(foil: &Foil, root_path: &str) -> (row: PostRow)
    requires
        foil.wf(),
    ensures
        row.name@ == foil.name@,
        row.permalink@ == foil.permalink@,
        row.title@ == foil.title@,
        author_marks(row.authors@) == author_marks(foil.authors@),
        row.description@ == foil.description@,
        string_views(row.keywords@) == string_views(foil.keywords@),
        string_views(row.covers@) == string_views(foil.covers@),
        row.main@ == js_main_permalink(foil.permalink@, foil.root_path@, foil.output_path@),
        row.date_published == foil.date_published,
        row.date_modified == foil.date_modified,
        row.output_path@ == path_cleaned(foil.output_path@),
        row.root_path@ == path_cleaned(root_path@),
        string_views(row.public_modules@) == string_views(
            foil.public_modules@,
        ),
        string_views(row.rss@) == string_views(foil.rss@),
        string_views(row.assets@) == string_views(foil.assets@),
{
    let mut authors: Vec<NodeAuthor> = Vec::new();
    let mut i: usize = 0;
    assert(author_marks(authors@) =~= author_marks(foil.authors@).take(0));
    while i < foil.authors.len()
        invariant
            i <= foil.authors.len(),
            author_marks(authors@) == author_marks(foil.authors@).take(i as int),
        decreases foil.authors.len() - i,
    {
        let ghost before = author_marks(authors@);
        authors.push(foil.authors[i].copy());
        assert(author_marks(authors@) =~= before.push(foil.authors@[i as int]@));
        assert(author_marks(authors@) =~= author_marks(foil.authors@).take(i + 1));
        i += 1;
    }
    assert(author_marks(foil.authors@).take(foil.authors.len() as int) =~= author_marks(
        foil.authors@,
    ));
    PostRow {
        name: foil.name.clone(),
        permalink: foil.permalink.clone(),
        title: foil.title.clone(),
        authors,
        description: foil.description.clone(),
        keywords: copy_texts(&foil.keywords),
        covers: copy_texts(&foil.covers),
        main: foil.resolve_js_main(),
        date_published: foil.date_published,
        date_modified: foil.date_modified,
        output_path: clean_path_string(foil.output_path.as_str()),
        root_path: clean_path_string(root_path),
        public_modules: copy_texts(&foil.public_modules),
        rss: copy_texts(&foil.rss),
        assets: copy_texts(&foil.assets),
    }
}

/// A copy of a list of texts.
pub fn copy_texts(texts: &Vec<String>) -> (out: Vec<String>)
    ensures
        string_views(out@) == string_views(texts@),
{
    let mut out: Vec<String> = Vec::new();
    let mut i: usize = 0;
    while i < texts.len()
        invariant
            i <= texts.len(),
            out.len() == i,
            forall|k: int| 0 <= k < i ==> (#[trigger] out@[k])@ == texts@[k]@,
        decreases texts.len() - i,
    {
        out.push(texts[i].clone());
        i += 1;
    }
    assert(string_views(out@) =~= string_views(texts@));
    out
}

/// Whether the stored row that `check` describes is stale.
pub fn row_is_stale(check: &RowCheck) -> (r: bool)
    ensures
        r == is_stale(check),
{
    if !check.descriptor_exists || !check.metadata_exists {
        return true;
    }
    match &check.descriptor_permalink {
        Some(permalink) => !same_text(permalink.as_str(), check.permalink.as_str()),
        None => true,
    }
}

/// The identifiers of the rows to clear from the content store at the
/// start of a pass: those of the stale rows, in order.
pub fn clean_database(checks: &Vec<RowCheck>) -> (ids: Vec<i32>)
    ensures
        ids@ == stale_ids(checks@, checks@.len() as int),
{
    let mut ids: Vec<i32> = Vec::new();
    let mut i: usize = 0;
    while i < checks.len()
        invariant
            i <= checks.len(),
            ids@ == stale_ids(checks@, i as int),
        decreases checks.len() - i,
    {
        if row_is_stale(&checks[i]) {
            ids.push(checks[i].id);
        }
        i += 1;
    }
    ids
}

} // verus!
