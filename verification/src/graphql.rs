//! The rules of the query surface: what a query may ask, and how its
//! arguments are turned into what the content store is asked.

use crate::paths::{ancestors, clean_path_string, path_ancestors, path_cleaned};
use crate::package_schema::NodeAuthor;
use crate::text::{chars_of, string_of, string_views};
use crate::time::ModifiedTime;
use itertools::Itertools;
use vstd::prelude::*;
use vstd::string::StringExecFns;

verus! {

/// An author of a post, as queries return it.
#[derive(Debug)]
pub struct Author {
    pub name: String,
    pub email: String,
    pub url: String,
}

/// The authors of a post as the content store holds them.
#[derive(Debug)]
pub struct SQLAuthors(pub Vec<Author>);

/// The authors of a post as the builder reads them from the content store.
#[derive(Debug)]
pub struct Authors(pub Vec<NodeAuthor>);

/// A post as the content store holds it.
#[derive(Debug)]
pub struct SQLPost {
    pub id: i32,
    pub permalink: String,
    pub title: String,
    pub authors: SQLAuthors,
    pub description: String,
    pub keywords: Vec<String>,
    pub covers: Vec<String>,
    pub main: String,
    pub date_published: ModifiedTime,
    pub date_modified: ModifiedTime,
}

/// A post as queries return it.
#[derive(Debug)]
pub struct Post {
    pub id: i32,
    pub permalink: String,
    pub title: String,
    pub authors: Vec<Author>,
    pub description: String,
    pub keywords: Vec<String>,
    pub covers: Vec<String>,
    pub main: String,
    pub date_published: ModifiedTime,
    pub date_modified: ModifiedTime,
}

impl Post {
    /// The post that a stored post is returned as: the same post, with its
    /// authors as a plain list.
    pub fn from_row(row: SQLPost) -> (post: Post)
        ensures
            post.id == row.id,
            post.permalink == row.permalink,
            post.title == row.title,
            post.authors == row.authors.0,
            post.description == row.description,
            post.keywords == row.keywords,
            post.covers == row.covers,
            post.main == row.main,
            post.date_published == row.date_published,
            post.date_modified == row.date_modified,
    {
        Post {
            id: row.id,
            permalink: row.permalink,
            title: row.title,
            authors: row.authors.0,
            description: row.description,
            keywords: row.keywords,
            covers: row.covers,
            main: row.main,
            date_published: row.date_published,
            date_modified: row.date_modified,
        }
    }
}

/// The root of the queries on posts.
#[derive(Debug)]
pub struct QueryPosts;

impl Default for QueryPosts {
    fn default() -> (q: QueryPosts) {
        QueryPosts
    }
}

/// The root of all queries.
pub fn queries() -> (q: QueryPosts) {
    QueryPosts::default()
}

/// The most permalinks that one query may name.
pub const MAX_PERMALINKS: usize = 10;

/// The most bytes that a permalink or a search text may have.
pub const MAX_TEXT_BYTES: usize = 254;

/// The greatest offset that a query is answered from.
pub const MAX_OFFSET: i32 = 10000;

/// The most posts that one query is answered with.
pub const MAX_LIMIT: i32 = 100;

/// The number of posts that a query is answered with where it names none.
pub const DEFAULT_LIMIT: i32 = 10;

/// The number of bytes of a text in UTF-8.
pub open spec fn byte_length(text: Seq<char>) -> nat {
    vstd::utf8::encode_utf8(text).len()
}

/// Whether a text is too long to be a permalink or a search text.
pub open spec fn too_long(text: Seq<char>) -> bool {
    byte_length(text) > MAX_TEXT_BYTES
}

/// The complaint about a list of too many permalinks.
pub open spec fn too_many_permalinks() -> Seq<char> {
    "Permalink list must be < 10!"@
}

/// The complaint about a permalink that is too long.
pub open spec fn permalink_too_long(permalink: Seq<char>) -> Seq<char> {
    "Permalinks must have less than 254 characters. Check "@ + permalink + "."@
}

/// The complaint about a search text that is too long.
pub open spec fn search_too_long(search: Seq<char>) -> Seq<char> {
    "Search string must have less than 254 characters. Check "@ + search + "."@
}

/// The index of the first text among the first `upto` that is too long.
pub open spec fn first_too_long(texts: Seq<Seq<char>>, upto: int) -> Option<int>
    decreases upto,
{
    if upto <= 0 {
        None
    } else {
        match first_too_long(texts, upto - 1) {
            Some(k) => Some(k),
            None => if too_long(texts[upto - 1]) {
                Some(upto - 1)
            } else {
                None
            },
        }
    }
}

/// What is wrong with a list of permalinks, if anything: it names too
/// many, or one of them is too long.
pub open spec fn permalinks_complaint(permalinks: Seq<Seq<char>>) -> Option<Seq<char>> {
    if permalinks.len() > MAX_PERMALINKS {
        Some(too_many_permalinks())
    } else {
        match first_too_long(permalinks, permalinks.len() as int) {
            Some(k) => Some(permalink_too_long(permalinks[k])),
            None => None,
        }
    }
}

/// Whether `c` has a meaning of its own in a regular expression, and is
/// matched only when escaped.
pub open spec fn is_regex_special(c: char) -> bool {
    ||| c == '/'
    ||| c == '$'
    ||| c == '^'
    ||| c == '+'
    ||| c == '.'
    ||| c == '('
    ||| c == ')'
    ||| c == '='
    ||| c == '!'
    ||| c == '|'
    ||| c == ','
    ||| c == '{'
    ||| c == '}'
    ||| c == '['
    ||| c == ']'
}

/// What one character of a permalink pattern becomes in a regular
/// expression: `*` matches anything, a special character is escaped, any
/// other stands for itself.
pub open spec fn regex_of_char(c: char) -> Seq<char> {
    if is_regex_special(c) {
        seq!['\\', c]
    } else if c == '*' {
        seq!['.', '*']
    } else {
        seq![c]
    }
}

/// What the characters of a permalink pattern become, one after the other.
pub open spec fn regex_body(pattern: Seq<char>) -> Seq<char>
    decreases pattern.len(),
{
    if pattern.len() == 0 {
        Seq::<char>::empty()
    } else {
        regex_body(pattern.drop_last()) + regex_of_char(pattern.last())
    }
}

/// The regular expression that matches exactly the permalinks that a
/// permalink pattern stands for.
pub open spec fn permalink_regex(pattern: Seq<char>) -> Seq<char> {
    seq!['^'] + regex_body(pattern) + seq!['$']
}

/// The offset that a query is answered from: the one it names, or zero,
/// and never more than the greatest offset.
pub open spec fn window_offset(offset: Option<i32>) -> i32 {
    let asked = match offset {
        Some(o) => o,
        None => 0i32,
    };
    if asked > MAX_OFFSET {
        MAX_OFFSET
    } else {
        asked
    }
}

/// The number of posts that a query is answered with: the one it names,
/// or the default, and never more than the most allowed.
pub open spec fn window_limit(limit: Option<i32>) -> i32 {
    let asked = match limit {
        Some(l) => l,
        None => DEFAULT_LIMIT,
    };
    if asked > MAX_LIMIT {
        MAX_LIMIT
    } else {
        asked
    }
}

/// A search text without the characters that stand for anything in a
/// `LIKE` pattern.
pub open spec fn sanitized(search: Seq<char>) -> Seq<char>
    decreases search.len(),
{
    if search.len() == 0 {
        Seq::<char>::empty()
    } else if search.last() == '%' || search.last() == '_' {
        sanitized(search.drop_last())
    } else {
        sanitized(search.drop_last()).push(search.last())
    }
}

/// The `LIKE` pattern that finds a search text anywhere.
pub open spec fn like_pattern(search: Seq<char>) -> Seq<char> {
    seq!['%'] + sanitized(search) + seq!['%']
}

/// The permalinks to look a post up under, the nearest first: the clean
/// spelling of the permalink itself, then those of its ancestors.
pub open spec fn post_candidates(permalink: Seq<char>) -> Seq<Seq<char>> {
    seq![path_cleaned(permalink)] + Seq::new(
        path_ancestors(permalink).len(),
        |i: int| path_cleaned(path_ancestors(permalink)[i]),
    )
}

/// What `itertools` joins the identifiers to: each in decimal, with a
/// comma between neighbours.
pub uninterp spec fn ids_joined(ids: Seq<i32>) -> Seq<char>;

/// Calls `itertools::Itertools::join` on the identifiers, with a comma as
/// the separator.
#[verifier::external_body]
pub(crate) fn join_ids(ids: &Vec<i32>) -> (out: String)
    ensures
        out@ == ids_joined(ids@),
{
    ids.iter().join(",")
}

/// The number of bytes of `text` in UTF-8.
pub fn byte_len(text: &str) -> (n: usize)
    ensures
        n == byte_length(text@),
{
    text.as_bytes().len()
}

/// The list of identifiers as the content store is asked for them.
pub fn load_keys(keys: &Vec<i32>) -> (list: String)
    ensures
        list@ == ids_joined(keys@),
{
    join_ids(keys)
}

/// Checks a list of permalinks that a query names.
pub fn check_permalinks(permalinks: &Vec<String>) -> (r: Result<(), String>)
    ensures
        match r {
            Ok(_) => permalinks_complaint(string_views(permalinks@)) is None,
            Err(complaint) => permalinks_complaint(string_views(permalinks@)) == Some(complaint@),
        },
{
    if permalinks.len() > MAX_PERMALINKS {
        return Err("Permalink list must be < 10!".to_owned());
    }
    let mut i: usize = 0;
    while i < permalinks.len()
        invariant
            i <= permalinks.len(),
            permalinks.len() <= MAX_PERMALINKS,
            first_too_long(string_views(permalinks@), i as int) is None,
        decreases permalinks.len() - i,
    {
        if byte_len(permalinks[i].as_str()) > MAX_TEXT_BYTES {
            proof {
                assert(first_too_long(string_views(permalinks@), i + 1) == Some(i as int));
                lemma_first_too_long_stays(
                    string_views(permalinks@),
                    i + 1,
                    permalinks@.len() as int,
                );
            }
            return Err(complain_of_permalink(permalinks[i].as_str()));
        }
        i += 1;
    }
    Ok(())
}

/// Once a text that is too long is found, looking at more texts finds the
/// same one.
pub proof fn lemma_first_too_long_stays(texts: Seq<Seq<char>>, upto: int, more: int)
    requires
        upto <= more,
        first_too_long(texts, upto) is Some,
    ensures
        first_too_long(texts, more) == first_too_long(texts, upto),
    decreases more - upto,
{
    if upto < more {
        lemma_first_too_long_stays(texts, upto, more - 1);
    }
}

/// The complaint about the permalink `permalink`, which is too long.
fn complain_of_permalink(permalink: &str) -> (complaint: String)
    ensures
        complaint@ == permalink_too_long(permalink@),
{
    let mut complaint = "Permalinks must have less than 254 characters. Check ".to_owned();
    complaint.append(permalink);
    complaint.append(".");
    complaint
}

/// Checks one permalink that a query names.
pub fn check_permalink(permalink: &str) -> (r: Result<(), String>)
    ensures
        match r {
            Ok(_) => !too_long(permalink@),
            Err(complaint) => too_long(permalink@) && complaint@ == permalink_too_long(permalink@),
        },
{
    if byte_len(permalink) > MAX_TEXT_BYTES {
        Err(complain_of_permalink(permalink))
    } else {
        Ok(())
    }
}

/// The regular expression that matches exactly the permalinks that the
/// permalink pattern `pattern` stands for.
pub fn glob_to_regex(pattern: &str) -> (regex: String)
    ensures
        regex@ == permalink_regex(pattern@),
{
    let chars = chars_of(pattern);
    let mut out: Vec<char> = Vec::new();
    out.push('^');
    let mut i: usize = 0;
    proof {
        assert(chars@.take(0) =~= Seq::<char>::empty());
        assert(out@ =~= seq!['^'] + regex_body(chars@.take(0)));
    }
    while i < chars.len()
        invariant
            i <= chars.len(),
            out@ == seq!['^'] + regex_body(chars@.take(i as int)),
        decreases chars.len() - i,
    {
        proof {
            assert(chars@.take(i + 1).drop_last() =~= chars@.take(i as int));
            assert(chars@.take(i + 1).last() == chars@[i as int]);
        }
        let ghost before = out@;
        let c = chars[i];
        let special = c == '/' || c == '$' || c == '^' || c == '+' || c == '.' || c == '(' || c
            == ')' || c == '=' || c == '!' || c == '|' || c == ',' || c == '{' || c == '}' || c
            == '[' || c == ']';
        if special {
            out.push('\\');
            out.push(c);
        } else if c == '*' {
            out.push('.');
            out.push('*');
        } else {
            out.push(c);
        }
        proof {
            assert(out@ =~= before + regex_of_char(c));
        }
        i += 1;
    }
    proof {
        assert(chars@.take(chars.len() as int) =~= chars@);
    }
    out.push('$');
    string_of(&out)
}

/// The window of posts that a query is answered with: where it starts and
/// how many posts it holds.
pub fn page_window(offset: Option<i32>, limit: Option<i32>) -> (window: (i32, i32))
    ensures
        window.0 == window_offset(offset),
        window.1 == window_limit(limit),
{
    let mut from = match offset {
        Some(o) => o,
        None => 0,
    };
    if from > MAX_OFFSET {
        from = MAX_OFFSET;
    }
    let mut count = match limit {
        Some(l) => l,
        None => DEFAULT_LIMIT,
    };
    if count > MAX_LIMIT {
        count = MAX_LIMIT;
    }
    (from, count)
}

/// The `LIKE` pattern for a search text, or the complaint about a text
/// that is too long.
pub fn post_search(search_string: &str) -> (r: Result<String, String>)
    ensures
        match r {
            Ok(pattern) => !too_long(search_string@) && pattern@ == like_pattern(search_string@),
            Err(complaint) => too_long(search_string@) && complaint@ == search_too_long(
                search_string@,
            ),
        },
{
    if byte_len(search_string) > MAX_TEXT_BYTES {
        let mut complaint = "Search string must have less than 254 characters. Check ".to_owned();
        complaint.append(search_string);
        complaint.append(".");
        return Err(complaint);
    }
    let chars = chars_of(search_string);
    let mut out: Vec<char> = Vec::new();
    out.push('%');
    let mut i: usize = 0;
    proof {
        assert(chars@.take(0) =~= Seq::<char>::empty());
        assert(out@ =~= seq!['%'] + sanitized(chars@.take(0)));
    }
    while i < chars.len()
        invariant
            i <= chars.len(),
            out@ == seq!['%'] + sanitized(chars@.take(i as int)),
        decreases chars.len() - i,
    {
        proof {
            assert(chars@.take(i + 1).drop_last() =~= chars@.take(i as int));
            assert(chars@.take(i + 1).last() == chars@[i as int]);
        }
        let ghost before = out@;
        let c = chars[i];
        if c != '%' && c != '_' {
            out.push(c);
            proof {
                assert(out@ =~= seq!['%'] + sanitized(chars@.take(i as int)).push(c));
            }
        }
        i += 1;
    }
    proof {
        assert(chars@.take(chars.len() as int) =~= chars@);
    }
    out.push('%');
    Ok(string_of(&out))
}

/// The permalinks to look a post up under, the nearest first, or the
/// complaint about a permalink that is too long.
pub fn post_recursive(permalink: &str) -> (r: Result<Vec<String>, String>)
    ensures
        match r {
            Ok(candidates) => !too_long(permalink@) && string_views(candidates@)
                == post_candidates(permalink@),
            Err(complaint) => too_long(permalink@) && complaint@ == permalink_too_long(permalink@),
        },
{
    if byte_len(permalink) > MAX_TEXT_BYTES {
        return Err(complain_of_permalink(permalink));
    }
    let mut candidates: Vec<String> = Vec::new();
    candidates.push(clean_path_string(permalink));
    let above = ancestors(permalink);
    let ghost head = string_views(candidates@);
    assert(head =~= seq![path_cleaned(permalink@)]);
    let mut i: usize = 0;
    while i < above.len()
        invariant
            i <= above.len(),
            string_views(above@) == path_ancestors(permalink@),
            string_views(candidates@) == head + Seq::new(
                i as nat,
                |k: int| path_cleaned(path_ancestors(permalink@)[k]),
            ),
        decreases above.len() - i,
    {
        let ghost before = string_views(candidates@);
        assert(above@[i as int]@ == string_views(above@)[i as int]);
        candidates.push(clean_path_string(above[i].as_str()));
        assert(string_views(candidates@) =~= before.push(
            path_cleaned(path_ancestors(permalink@)[i as int]),
        ));
        i += 1;
    }
    Ok(candidates)
}

} // verus!
