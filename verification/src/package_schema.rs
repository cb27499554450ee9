//! The descriptor of a content package, as it is written in the package's
//! directory.

use crate::string_map::StringMap;
use crate::text::string_views;
use crate::time::ModifiedTime;
use vstd::prelude::*;

verus! {

/// An author or contributor of a package.
#[derive(Debug)]
pub struct NodeAuthor {
    pub name: String,
    pub email: String,
    pub url: String,
}

/// What an author entry says.
pub struct AuthorMark {
    pub name: Seq<char>,
    pub email: Seq<char>,
    pub url: Seq<char>,
}

impl View for NodeAuthor {
    type V = AuthorMark;

    open spec fn view(&self) -> AuthorMark {
        AuthorMark { name: self.name@, email: self.email@, url: self.url@ }
    }
}

impl NodeAuthor {
    /// A copy of the author.
    pub fn copy(&self) -> (out: NodeAuthor)
        ensures
            out@ == self@,
    {
        NodeAuthor { name: self.name.clone(), email: self.email.clone(), url: self.url.clone() }
    }
}

/// What a list of authors says.
pub open spec fn author_marks(authors: Seq<NodeAuthor>) -> Seq<AuthorMark> {
    Seq::new(authors.len(), |i: int| authors[i]@)
}

/// A redirect that a package asks for: requests for `from` go to `to`.
#[derive(Debug)]
pub struct Redirect {
    pub from: String,
    pub to: String,
}

/// The publishing part of a descriptor.
#[derive(Debug)]
pub struct FoilConfig {
    /// Where the package lives on the site.
    pub permalink: String,
    /// Title of the package's page.
    pub title: String,
    /// When the package was published.
    pub date_published: ModifiedTime,
    /// Glob patterns, relative to the package, of the files it serves as
    /// they are.
    pub assets: Vec<String>,
    /// Names of the dependencies that the package exposes to its
    /// descendants.
    pub public_modules: Vec<String>,
    /// Where compiled files go; empty for the package's own directory.
    pub output_path: String,
    /// Whether the package is a frontend, which owns its whole subtree.
    pub frontend: bool,
    /// Permalink patterns of the packages that its feed lists.
    pub rss: Vec<String>,
    /// Redirects that the package asks for.
    pub redirects: Vec<Redirect>,
}

/// A descriptor: the package manifest with its publishing part.
#[derive(Debug)]
pub struct NodePackage {
    /// Name of the package; empty where the descriptor gives none.
    pub name: String,
    /// The package's author.
    pub author: NodeAuthor,
    /// Further authors.
    pub contributors: Vec<NodeAuthor>,
    /// Description of the package.
    pub description: String,
    /// Search keywords.
    pub keywords: Vec<String>,
    /// Entry file, relative to the package.
    pub main: String,
    /// Files of the package, where the descriptor lists them.
    pub files: Option<Vec<String>>,
    /// Development dependencies, by name, with the version asked for.
    pub dev_dependencies: Option<StringMap>,
    /// Dependencies, by name, with the version asked for.
    pub dependencies: Option<StringMap>,
    /// The publishing part.
    pub foil: FoilConfig,
}

/// The default of a flag: off.
pub fn default_false() -> (r: bool)
    ensures
        !r,
{
    false
}

/// The default of a text: empty.
pub fn default_empty_str() -> (r: String)
    ensures
        r@ == Seq::<char>::empty(),
{
    String::new()
}

/// The default feed scope: every package directly below `/blog`.
pub fn default_rss_vec() -> (r: Vec<String>)
    ensures
        string_views(r@) == seq!["/blog/*"@],
{
    let mut r: Vec<String> = Vec::new();
    r.push("/blog/*".to_owned());
    assert(string_views(r@) =~= seq!["/blog/*"@]);
    r
}

/// The default asset patterns: everything below the package's `assets`
/// directory.
pub fn default_assets() -> (r: Vec<String>)
    ensures
        string_views(r@) == seq!["assets/**/*"@],
{
    let mut r: Vec<String> = Vec::new();
    r.push("assets/**/*".to_owned());
    assert(string_views(r@) =~= seq!["assets/**/*"@]);
    r
}

/// The default of a list: empty.
pub fn default_empty_vec<T>() -> (r: Vec<T>)
    ensures
        r@ == Seq::<T>::empty(),
{
    Vec::new()
}

/// The default publishing date: the time of discovery, which the caller
/// hands in.
pub fn default_current_date(now: ModifiedTime) -> (r: ModifiedTime)
    ensures
        r == now,
{
    now
}

impl FoilConfig {
    /// The publishing part that a descriptor with only a permalink and a
    /// title stands for: every other field at its default, published `now`.
    pub fn with_defaults(permalink: String, title: String, now: ModifiedTime) -> (c: FoilConfig)
        ensures
            c.permalink == permalink,
            c.title == title,
            c.date_published == now,
            string_views(c.assets@) == seq!["assets/**/*"@],
            c.public_modules@ == Seq::<String>::empty(),
            c.output_path@ == Seq::<char>::empty(),
            !c.frontend,
            string_views(c.rss@) == seq!["/blog/*"@],
            c.redirects@ == Seq::<Redirect>::empty(),
    {
        FoilConfig {
            permalink,
            title,
            date_published: default_current_date(now),
            assets: default_assets(),
            public_modules: default_empty_vec(),
            output_path: default_empty_str(),
            frontend: default_false(),
            rss: default_rss_vec(),
            redirects: default_empty_vec(),
        }
    }
}

} // verus!
