//! Resolved content packages, and the discovery of packages in a source
//! tree.

use crate::error::{FoilError, Result};
use crate::metadata::FoilMetadata;
use crate::package_schema::{NodeAuthor, NodePackage, Redirect};
use crate::paths::{
    backslashes_to_slashes, extension, file_name, is_strictly_within, is_within, join,
    path_extension, path_file_name, path_joined, path_relative_to, path_strictly_within,
    path_within, slashes_only, strip_prefix,
};
use crate::static_assets::{
    all_within, asset_marks, assets_of, build_static_assets, is_path_sorted, marks, sort_by_path,
    sorted_by_path, AssetMark, FileMark, FoilFile, FoundEntry, StaticAsset,
};
use crate::string_map::StringMap;
use crate::text::{chars_of, replace_all, replaced, same_text, string_of, string_views};
use crate::time::{later_of, ModifiedTime, EARLIEST_SECS};
use vstd::prelude::*;

verus! {

/// A content package, resolved from its descriptor and ready to be
/// compared, built and stored.
#[derive(Debug)]
pub struct Foil {
    /// Package name, used to resolve imports.
    pub name: String,
    /// Where the package lives on the site.
    pub permalink: String,
    /// Title of the package's page.
    pub title: String,
    /// Description of the package.
    pub description: String,
    /// Authors, the package's own author first.
    pub authors: Vec<NodeAuthor>,
    /// Search keywords.
    pub keywords: Vec<String>,
    /// Permalinks of the cover assets, the most widely readable first.
    pub covers: Vec<String>,
    /// Entry file, relative to the package.
    pub main: String,
    /// When the package was published.
    pub date_published: ModifiedTime,
    /// When the package was last modified: the latest modification among
    /// its source files.
    pub date_modified: ModifiedTime,
    /// Glob patterns of the files that the package serves as they are.
    pub assets: Vec<String>,
    /// Names of the dependencies that the package exposes.
    pub public_modules: Vec<String>,
    /// Fingerprints of the source files, sorted by path.
    pub source_files: Vec<FoilFile>,
    /// Directory of the package on the server.
    pub root_path: String,
    /// Directory that compiled files go to.
    pub output_path: String,
    /// Whether the package is a frontend, which owns its whole subtree.
    pub frontend: bool,
    /// The exposed dependencies with the versions they resolved to.
    pub public_modules_map: StringMap,
    /// Permalink patterns of the packages that its feed lists.
    pub rss: Vec<String>,
    /// Redirects that the package asks for.
    pub redirects: Vec<Redirect>,
}

/// Whether an entry file with this name is compiled before it is served:
/// TypeScript and MDX sources are, anything else is served as it is.
pub open spec fn needs_compiling(main: Seq<char>) -> bool {
    match path_extension(main) {
        Some(e) => e == "ts"@ || e == "tsx"@ || e == "mdx"@,
        None => false,
    }
}

/// The permalink of the compiled entry file of a package: the package's
/// permalink, then the way from its root to its output directory, then
/// `main.js`.
pub open spec fn js_main_permalink(permalink: Seq<char>, root_path: Seq<char>, output_path: Seq<char>)
    -> Seq<char> {
    slashes_only(
        path_joined(path_joined(permalink, path_relative_to(output_path, root_path)), "main.js"@),
    )
}

impl Foil {
    /// The output directory is the root directory or lies below it.
    pub open spec fn wf(&self) -> bool {
        path_within(self.output_path@, self.root_path@)
    }

    /// Whether the package has to be compiled.
    pub fn requires_build(&self) -> (r: bool)
        ensures
            r == needs_compiling(self.main@),
    {
        match extension(self.main.as_str()) {
            Some(e) => same_text(e.as_str(), "ts") || same_text(e.as_str(), "tsx") || same_text(
                e.as_str(),
                "mdx",
            ),
            None => false,
        }
    }

    /// The permalink of the package's compiled entry file.
    pub fn resolve_js_main(&self) -> (main: String)
        requires
            self.wf(),
        ensures
            main@ == js_main_permalink(self.permalink@, self.root_path@, self.output_path@),
    {
        match strip_prefix(self.output_path.as_str(), self.root_path.as_str()) {
            Some(relative) => {
                let dir = join(self.permalink.as_str(), relative.as_str());
                let joined = join(dir.as_str(), "main.js");
                backslashes_to_slashes(joined.as_str())
            },
            None => String::new(),
        }
    }
}

/// What `str::to_lowercase` makes of a text: its lowercase form as Unicode
/// defines it.
pub uninterp spec fn lowercased(s: Seq<char>) -> Seq<char>;

/// Calls `str::to_lowercase`. The result is a function of the text alone;
/// it is named, not restated.
#[verifier::external_body]
pub(crate) fn lowercase(s: &str) -> (out: String)
    ensures
        out@ == lowercased(s@),
{
    s.to_lowercase()
}

/// The name that a title gives a package without one: hyphens dropped,
/// double spaces made single, spaces and underscores turned into hyphens,
/// and all of it in lowercase.
pub open spec fn name_from_title(title: Seq<char>) -> Seq<char> {
    lowercased(
        replaced(
            replaced(
                replaced(replaced(title, seq!['-'], Seq::<char>::empty()), seq![' ', ' '], seq![' ']),
                seq![' '],
                seq!['-'],
            ),
            seq!['_'],
            seq!['-'],
        ),
    )
}

/// The name of a package: the one its descriptor gives, or else the one
/// its title gives.
pub open spec fn package_name(name: Seq<char>, title: Seq<char>) -> Seq<char> {
    if name.len() > 0 {
        name
    } else {
        name_from_title(title)
    }
}

/// Where the compiled files of a package go: its own directory, unless the
/// descriptor names another, which is taken relative to the package.
pub open spec fn resolved_output(root_path: Seq<char>, output_path: Seq<char>) -> Seq<char> {
    if output_path.len() == 0 {
        root_path
    } else {
        path_joined(root_path, output_path)
    }
}

/// The latest modification among `files`; the earliest time there is where
/// there are no files.
pub open spec fn latest_of(files: Seq<FileMark>) -> ModifiedTime
    decreases files.len(),
{
    if files.len() == 0 {
        ModifiedTime { secs: EARLIEST_SECS, nanos: 0 }
    } else {
        later_of(latest_of(files.drop_last()), files.last().modified_date)
    }
}

/// Whether a file of this name is a cover: `cover` with the extension of
/// an image or a film.
pub open spec fn is_cover_name(name: Seq<char>) -> bool {
    ||| name == "cover.jpg"@
    ||| name == "cover.svg"@
    ||| name == "cover.gif"@
    ||| name == "cover.png"@
    ||| name == "cover.mp4"@
}

/// Whether the file at `path` is a cover.
pub open spec fn is_cover(path: Seq<char>) -> bool {
    match path_file_name(path) {
        Some(name) => is_cover_name(name),
        None => false,
    }
}

/// Whether the file at `path` is the vector cover, which fewer readers can
/// show than the others.
pub open spec fn is_vector_cover(path: Seq<char>) -> bool {
    path_file_name(path) == Some("cover.svg"@)
}

/// The cover permalinks of a package, the most widely readable first: each
/// cover among the assets goes in front of those before it, but for the
/// vector cover, which goes behind them.
pub open spec fn covers_of(assets: Seq<AssetMark>) -> Seq<Seq<char>>
    decreases assets.len(),
{
    if assets.len() == 0 {
        Seq::<Seq<char>>::empty()
    } else {
        let rest = covers_of(assets.drop_last());
        let asset = assets.last();
        if !is_cover(asset.path) {
            rest
        } else if is_vector_cover(asset.path) {
            rest.push(asset.permalink)
        } else {
            seq![asset.permalink] + rest
        }
    }
}

/// The version that a table of dependencies, if there is one, gives a
/// module.
pub open spec fn version_in(table: Option<StringMap>, module: Seq<char>) -> Option<Seq<char>> {
    match table {
        Some(map) => if map@.dom().contains(module) {
            Some(map@[module])
        } else {
            None
        },
        None => None,
    }
}

/// The version that an exposed dependency resolves to: the one among the
/// development dependencies, or else the one among the dependencies.
pub open spec fn resolved_version(
    module: Seq<char>,
    dependencies: Option<StringMap>,
    dev_dependencies: Option<StringMap>,
) -> Option<Seq<char>> {
    match version_in(dev_dependencies, module) {
        Some(version) => Some(version),
        None => version_in(dependencies, module),
    }
}

/// The exposed dependencies of a package with the versions they resolve
/// to. A declared dependency that resolves to no version is left out.
pub open spec fn resolved_modules(
    declared: Seq<Seq<char>>,
    dependencies: Option<StringMap>,
    dev_dependencies: Option<StringMap>,
) -> Map<Seq<char>, Seq<char>> {
    Map::new(
        |m: Seq<char>|
            declared.contains(m) && resolved_version(m, dependencies, dev_dependencies) is Some,
        |m: Seq<char>| resolved_version(m, dependencies, dev_dependencies)->0,
    )
}

/// The latest modification among `files`.
pub fn latest_modified(files: &Vec<FoilFile>) -> (latest: ModifiedTime)
    ensures
        latest == latest_of(marks(files@)),
{
    let mut latest = ModifiedTime::earliest();
    let mut i: usize = 0;
    proof {
        assert(marks(files@).take(0) =~= Seq::<FileMark>::empty());
    }
    while i < files.len()
        invariant
            i <= files.len(),
            latest == latest_of(marks(files@).take(i as int)),
        decreases files.len() - i,
    {
        proof {
            assert(marks(files@).take(i + 1).drop_last() =~= marks(files@).take(i as int));
            assert(marks(files@).take(i + 1).last() == files@[i as int]@);
        }
        if latest.is_before(&files[i].modified_date) {
            latest = files[i].modified_date;
        }
        i += 1;
    }
    proof {
        assert(marks(files@).take(files.len() as int) =~= marks(files@));
    }
    latest
}

/// The name that `title` gives a package without one.
pub fn derive_name(title: &str) -> (name: String)
    ensures
        name@ == name_from_title(title@),
{
    let mut hyphen: Vec<char> = Vec::new();
    hyphen.push('-');
    let mut space: Vec<char> = Vec::new();
    space.push(' ');
    let mut spaces: Vec<char> = Vec::new();
    spaces.push(' ');
    spaces.push(' ');
    let mut underscore: Vec<char> = Vec::new();
    underscore.push('_');
    let nothing: Vec<char> = Vec::new();
    proof {
        assert(hyphen@ =~= seq!['-']);
        assert(space@ =~= seq![' ']);
        assert(spaces@ =~= seq![' ', ' ']);
        assert(underscore@ =~= seq!['_']);
        assert(nothing@ =~= Seq::<char>::empty());
    }
    let chars = chars_of(title);
    let a = replace_all(&chars, &hyphen, &nothing);
    let b = replace_all(&a, &spaces, &space);
    let c = replace_all(&b, &space, &hyphen);
    let d = replace_all(&c, &underscore, &hyphen);
    let text = string_of(&d);
    lowercase(text.as_str())
}

/// Whether the file at `path` is a cover, and whether it is the vector
/// cover.
fn cover_kind(path: &str) -> (r: (bool, bool))
    ensures
        r.0 == is_cover(path@),
        r.1 == is_vector_cover(path@),
{
    match file_name(path) {
        Some(name) => {
            let vector = same_text(name.as_str(), "cover.svg");
            let cover = vector || same_text(name.as_str(), "cover.jpg") || same_text(
                name.as_str(),
                "cover.gif",
            ) || same_text(name.as_str(), "cover.png") || same_text(name.as_str(), "cover.mp4");
            (cover, vector)
        },
        None => (false, false),
    }
}

/// The cover permalinks among `assets`, the most widely readable first.
pub fn select_covers(assets: &Vec<StaticAsset>) -> (covers: Vec<String>)
    ensures
        string_views(covers@) == covers_of(asset_marks(assets@)),
{
    let mut covers: Vec<String> = Vec::new();
    let mut i: usize = 0;
    proof {
        assert(asset_marks(assets@).take(0) =~= Seq::<AssetMark>::empty());
        assert(string_views(covers@) =~= Seq::<Seq<char>>::empty());
    }
    while i < assets.len()
        invariant
            i <= assets.len(),
            string_views(covers@) == covers_of(asset_marks(assets@).take(i as int)),
        decreases assets.len() - i,
    {
        proof {
            assert(asset_marks(assets@).take(i + 1).drop_last() =~= asset_marks(assets@).take(
                i as int,
            ));
            assert(asset_marks(assets@).take(i + 1).last() == assets@[i as int]@);
        }
        let kind = cover_kind(assets[i].path.as_str());
        if kind.0 {
            let ghost before = string_views(covers@);
            if kind.1 {
                covers.push(assets[i].permalink.clone());
                assert(string_views(covers@) =~= before.push(assets@[i as int].permalink@));
            } else {
                covers.insert(0, assets[i].permalink.clone());
                assert(string_views(covers@) =~= seq![assets@[i as int].permalink@] + before);
            }
        }
        i += 1;
    }
    proof {
        assert(asset_marks(assets@).take(assets.len() as int) =~= asset_marks(assets@));
    }
    covers
}

/// The exposed dependencies `declared` with the versions they resolve to.
pub fn resolve_public_modules(
    declared: &Vec<String>,
    dependencies: &Option<StringMap>,
    dev_dependencies: &Option<StringMap>,
) -> (map: StringMap)
    ensures
        map@ == resolved_modules(string_views(declared@), *dependencies, *dev_dependencies),
{
    let mut map = StringMap::new();
    let mut i: usize = 0;
    proof {
        assert(map@ =~= resolved_modules(
            string_views(declared@).take(0),
            *dependencies,
            *dev_dependencies,
        ));
    }
    while i < declared.len()
        invariant
            i <= declared.len(),
            map@ == resolved_modules(
                string_views(declared@).take(i as int),
                *dependencies,
                *dev_dependencies,
            ),
        decreases declared.len() - i,
    {
        let ghost before = map@;
        let ghost head = string_views(declared@).take(i as int);
        let ghost next = string_views(declared@).take(i + 1);
        let module = &declared[i];
        proof {
            assert(next =~= head.push(module@));
            assert forall|m: Seq<char>| next.contains(m) <==> (head.contains(m) || m == module@) by {
                if head.contains(m) {
                    let k = choose|k: int| 0 <= k < head.len() && head[k] == m;
                    assert(next[k] == m);
                }
                if m == module@ {
                    assert(next[i as int] == m);
                }
                if next.contains(m) {
                    let k = choose|k: int| 0 <= k < next.len() && next[k] == m;
                    if k < i {
                        assert(head[k] == m);
                    }
                }
            }
        }
        match dependencies {
            Some(deps) => match deps.get(module.as_str()) {
                Some(version) => {
                    map.insert(module.clone(), version.clone());
                },
                None => {},
            },
            None => {},
        }
        match dev_dependencies {
            Some(dev) => match dev.get(module.as_str()) {
                Some(version) => {
                    map.insert(module.clone(), version.clone());
                },
                None => {},
            },
            None => {},
        }
        proof {
            assert(map@ =~= resolved_modules(next, *dependencies, *dev_dependencies));
        }
        i += 1;
    }
    proof {
        assert(string_views(declared@).take(declared.len() as int) =~= string_views(declared@));
    }
    map
}

/// Resolves a package from its descriptor.
///
/// `path` is the package's directory, `source_files` are the files that
/// its entry file reaches, and `found` is what its asset patterns matched
/// on disk. Fails when the output directory or a matched entry lies outside
/// the package's directory.
pub fn process_foil_project(
    package: NodePackage,
    path: &str,
    source_files: Vec<FoilFile>,
    found: &Vec<FoundEntry>,
) -> (r: Result<Foil>)
    ensures
        r is Ok <==> all_within(found@, path@) && path_within(
            resolved_output(path@, package.foil.output_path@),
            path@,
        ),
        r matches Err(e) ==> e is OutsideRoot,
        r matches Ok(foil) ==> {
            &&& foil.wf()
            &&& foil.name@ == package_name(package.name@, package.foil.title@)
            &&& foil.permalink == package.foil.permalink
            &&& foil.title == package.foil.title
            &&& foil.description == package.description
            &&& foil.authors@ == seq![package.author] + package.contributors@
            &&& foil.keywords == package.keywords
            &&& string_views(foil.covers@) == covers_of(
                assets_of(path@, package.foil.permalink@, found@),
            )
            &&& foil.main == package.main
            &&& foil.date_published == package.foil.date_published
            &&& foil.date_modified == latest_of(marks(source_files@))
            &&& foil.assets == package.foil.assets
            &&& foil.public_modules == package.foil.public_modules
            &&& marks(foil.source_files@) == sorted_by_path(marks(source_files@))
            &&& is_path_sorted(marks(foil.source_files@))
            &&& foil.root_path@ == path@
            &&& foil.output_path@ == resolved_output(path@, package.foil.output_path@)
            &&& foil.frontend == package.foil.frontend
            &&& foil.public_modules_map@ == resolved_modules(
                string_views(package.foil.public_modules@),
                package.dependencies,
                package.dev_dependencies,
            )
            &&& foil.rss == package.foil.rss
            &&& foil.redirects == package.foil.redirects
        },
{
    let output_path = if package.foil.output_path.as_str().is_empty() {
        path.to_owned()
    } else {
        join(path, package.foil.output_path.as_str())
    };
    if !is_within(output_path.as_str(), path) {
        return Err(FoilError::OutsideRoot(output_path));
    }
    let date_modified = latest_modified(&source_files);
    let mut assets: Vec<StaticAsset> = Vec::new();
    match build_static_assets(path, package.foil.permalink.as_str(), found, &mut assets) {
        Err(e) => {
            return Err(e);
        },
        Ok(_) => {},
    }
    proof {
        assert(asset_marks(assets@) =~= assets_of(path@, package.foil.permalink@, found@));
    }
    let covers = select_covers(&assets);
    let public_modules_map = resolve_public_modules(
        &package.foil.public_modules,
        &package.dependencies,
        &package.dev_dependencies,
    );
    let name = if package.name.as_str().is_empty() {
        derive_name(package.foil.title.as_str())
    } else {
        package.name
    };
    let mut authors: Vec<NodeAuthor> = Vec::new();
    authors.push(package.author);
    let mut contributors = package.contributors;
    authors.append(&mut contributors);
    let mut sorted = source_files;
    sort_by_path(&mut sorted);
    Ok(
        Foil {
            name,
            permalink: package.foil.permalink,
            title: package.foil.title,
            description: package.description,
            authors,
            keywords: package.keywords,
            covers,
            main: package.main,
            date_published: package.foil.date_published,
            date_modified,
            assets: package.foil.assets,
            public_modules: package.foil.public_modules,
            source_files: sorted,
            root_path: path.to_owned(),
            output_path,
            frontend: package.foil.frontend,
            public_modules_map,
            rss: package.foil.rss,
            redirects: package.foil.redirects,
        },
    )
}

/// Whether discovery passes over an entry of this name: dependency caches,
/// build outputs and hidden entries are not looked into.
pub open spec fn is_excluded_name(name: Seq<char>) -> bool {
    ||| name.len() == 0
    ||| name == "node_modules"@
    ||| name == "target"@
    ||| name[0] == '.'
}

/// Whether discovery looks at the entry named `file_name`.
pub fn is_foil_package(file_name: &str) -> (r: bool)
    ensures
        r == !is_excluded_name(file_name@),
{
    let chars = chars_of(file_name);
    if chars.len() == 0 {
        return false;
    }
    if same_text(file_name, "node_modules") || same_text(file_name, "target") {
        return false;
    }
    chars[0] != '.'
}

/// Whether a file of this name is a package descriptor.
pub fn is_descriptor(file_name: &str) -> (r: bool)
    ensures
        r == (file_name@ == "package.json"@),
{
    same_text(file_name, "package.json")
}

/// The path of the build metadata of the package at `root_path`.
pub fn metadata_path(root_path: &str) -> (path: String)
    ensures
        path@ == path_joined(root_path@, "foil-meta.json"@),
{
    join(root_path, "foil-meta.json")
}

/// The directories below `dir` that discovery goes on to: one for each
/// entry name that is not excluded, in order.
pub open spec fn directories_below(dir: Seq<char>, names: Seq<Seq<char>>) -> Seq<Seq<char>>
    decreases names.len(),
{
    if names.len() == 0 {
        Seq::<Seq<char>>::empty()
    } else if is_excluded_name(names.last()) {
        directories_below(dir, names.drop_last())
    } else {
        directories_below(dir, names.drop_last()).push(path_joined(dir, names.last()))
    }
}

/// What a directory held when discovery visited it.
#[derive(Clone, Copy, Debug, PartialEq, Eq, Structural)]
pub enum Descriptor {
    /// No descriptor, or one that could not be read: not a package.
    Absent,
    /// The descriptor of a package that is not a frontend.
    Package,
    /// The descriptor of a frontend package.
    Frontend,
}

/// The directories that a walk has yet to visit, in the order in which
/// they were found. A walk starts with its root, hands out one directory at
/// a time, and is told what each one held.
#[derive(Debug)]
pub struct Discovery {
    /// Directories yet to visit; the last one is visited next.
    pub pending: Vec<String>,
    /// Directories that hold a package, in the order visited.
    pub packages: Vec<String>,
}

impl Discovery {
    /// A walk that starts at `root`.
    pub fn new(root: &str) -> (walk: Discovery)
        ensures
            string_views(walk.pending@) == seq![root@],
            walk.packages@ == Seq::<String>::empty(),
    {
        let mut pending: Vec<String> = Vec::new();
        pending.push(root.to_owned());
        assert(string_views(pending@) =~= seq![root@]);
        Discovery { pending, packages: Vec::new() }
    }

    /// The directory to visit next, or nothing when the walk is over.
    pub fn next_directory(&mut self) -> (next: Option<String>)
        ensures
            final(self).packages == old(self).packages,
            match next {
                Some(dir) => old(self).pending@.len() > 0 && dir == old(self).pending@.last()
                    && final(self).pending@ == old(self).pending@.drop_last(),
                None => old(self).pending@.len() == 0 && final(self).pending@ == old(
                    self,
                ).pending@,
            },
    {
        self.pending.pop()
    }

    /// Records what the directory `dir` held: whether it is a package, and
    /// the names of its entries.
    ///
    /// A package is noted. A frontend package owns its whole subtree, so
    /// the walk does not go below it; below any other directory it goes on
    /// to each entry whose name is not excluded.
    pub fn visited(&mut self, dir: &str, descriptor: Descriptor, names: &Vec<String>)
        ensures
            string_views(final(self).packages@) == if descriptor == Descriptor::Absent {
                string_views(old(self).packages@)
            } else {
                string_views(old(self).packages@).push(dir@)
            },
            string_views(final(self).pending@) == if descriptor == Descriptor::Frontend {
                string_views(old(self).pending@)
            } else {
                string_views(old(self).pending@) + directories_below(dir@, string_views(names@))
            },
    {
        let ghost packages_before = string_views(self.packages@);
        let ghost pending_before = string_views(self.pending@);
        match descriptor {
            Descriptor::Absent => {},
            _ => {
                self.packages.push(dir.to_owned());
                assert(string_views(self.packages@) =~= packages_before.push(dir@));
            },
        }
        match descriptor {
            Descriptor::Frontend => {},
            _ => {
                let mut i: usize = 0;
                proof {
                    assert(string_views(names@).take(0) =~= Seq::<Seq<char>>::empty());
                    assert(string_views(self.pending@) =~= pending_before + directories_below(
                        dir@,
                        string_views(names@).take(0),
                    ));
                }
                while i < names.len()
                    invariant
                        i <= names.len(),
                        string_views(self.packages@) == if descriptor == Descriptor::Absent {
                            packages_before
                        } else {
                            packages_before.push(dir@)
                        },
                        string_views(self.pending@) == pending_before + directories_below(
                            dir@,
                            string_views(names@).take(i as int),
                        ),
                    decreases names.len() - i,
                {
                    proof {
                        assert(string_views(names@).take(i + 1).drop_last() =~= string_views(
                            names@,
                        ).take(i as int));
                        assert(string_views(names@).take(i + 1).last() == names@[i as int]@);
                    }
                    if is_foil_package(names[i].as_str()) {
                        let ghost before = string_views(self.pending@);
                        self.pending.push(join(dir, names[i].as_str()));
                        assert(string_views(self.pending@) =~= before.push(
                            path_joined(dir@, names@[i as int]@),
                        ));
                    }
                    i += 1;
                }
                proof {
                    assert(string_views(names@).take(names.len() as int) =~= string_views(names@));
                }
            },
        }
    }
}

/// Resolves the package of one descriptor, with its build metadata.
///
/// `package` is the descriptor as it was read, and `loaded` the build
/// metadata as it was read; either is absent where the file is, or cannot
/// be read. A directory without a readable descriptor, or whose package
/// cannot be resolved, gives nothing: discovery goes on without it.
pub fn resolve_foil(
    package: Option<NodePackage>,
    path: &str,
    source_files: Vec<FoilFile>,
    found: &Vec<FoundEntry>,
    loaded: Option<FoilMetadata>,
) -> (r: Option<(Foil, FoilMetadata)>)
    ensures
        r is Some <==> package is Some && all_within(found@, path@) && path_within(
            resolved_output(path@, package->0.foil.output_path@),
            path@,
        ),
        r matches Some(pair) ==> {
            &&& pair.0.wf()
            &&& pair.0.root_path@ == path@
            &&& pair.0.permalink == package->0.foil.permalink
            &&& pair.0.frontend == package->0.foil.frontend
            &&& marks(pair.0.source_files@) == sorted_by_path(marks(source_files@))
            &&& match loaded {
                Some(l) => pair.1.mode == l.mode && marks(pair.1.files@) == sorted_by_path(
                    marks(l.files@),
                ),
                None => pair.1.mode@ == Seq::<char>::empty() && pair.1.files@ == Seq::<
                    FoilFile,
                >::empty(),
            }
        },
{
    match package {
        None => None,
        Some(descriptor) => match process_foil_project(descriptor, path, source_files, found) {
            Ok(foil) => Some((foil, FoilMetadata::open(loaded))),
            Err(_) => None,
        },
    }
}

/// Whether the package at index `i` lies strictly below a frontend package
/// of the list.
pub open spec fn shadowed(all: Seq<(Foil, FoilMetadata)>, i: int) -> bool {
    exists|j: int|
        0 <= j < all.len() && (#[trigger] all[j]).0.frontend && path_strictly_within(
            all[i].0.root_path@,
            all[j].0.root_path@,
        )
}

/// The packages among the first `upto` of the list that are frontends, or
/// that are not, as `frontend` says, and that lie below no frontend
/// package; in the order of the list.
pub open spec fn selected(all: Seq<(Foil, FoilMetadata)>, upto: int, frontend: bool) -> Seq<
    (Foil, FoilMetadata),
>
    decreases upto,
{
    if upto <= 0 {
        Seq::<(Foil, FoilMetadata)>::empty()
    } else {
        let rest = selected(all, upto - 1, frontend);
        if all[upto - 1].0.frontend == frontend && !shadowed(all, upto - 1) {
            rest.push(all[upto - 1])
        } else {
            rest
        }
    }
}

/// The order in which the packages of a pass are processed: those that lie
/// below a frontend package are dropped, and of the others the frontend
/// packages come first, so that what they expose is known when their
/// dependents are processed.
pub open spec fn resolution_order(all: Seq<(Foil, FoilMetadata)>) -> Seq<(Foil, FoilMetadata)> {
    selected(all, all.len() as int, true) + selected(all, all.len() as int, false)
}

/// No package of the list lies strictly below a frontend package of the
/// list.
pub open spec fn containment_holds(packages: Seq<(Foil, FoilMetadata)>) -> bool {
    forall|a: int, b: int|
        0 <= a < packages.len() && 0 <= b < packages.len() && (#[trigger] packages[b]).0.frontend
            ==> !path_strictly_within(
            (#[trigger] packages[a]).0.root_path@,
            packages[b].0.root_path@,
        )
}

/// Each selected package is a package of the list that lies below no
/// frontend package.
pub proof fn lemma_selected_members(
    all: Seq<(Foil, FoilMetadata)>,
    upto: int,
    frontend: bool,
    k: int,
) -> (i: int)
    requires
        0 <= upto <= all.len(),
        0 <= k < selected(all, upto, frontend).len(),
    ensures
        0 <= i < upto,
        all[i] == selected(all, upto, frontend)[k],
        all[i].0.frontend == frontend,
        !shadowed(all, i),
    decreases upto,
{
    let rest = selected(all, upto - 1, frontend);
    if all[upto - 1].0.frontend == frontend && !shadowed(all, upto - 1) && k == rest.len() {
        upto - 1
    } else {
        lemma_selected_members(all, upto - 1, frontend, k)
    }
}

/// In the order of processing no package lies strictly below a frontend
/// package, and the frontend packages come before all others.
pub proof fn lemma_resolution_order(all: Seq<(Foil, FoilMetadata)>)
    ensures
        containment_holds(resolution_order(all)),
        forall|a: int, b: int|
            0 <= a < b < resolution_order(all).len() && (#[trigger] resolution_order(
                all,
            )[b]).0.frontend ==> (#[trigger] resolution_order(all)[a]).0.frontend,
{
    let n = all.len() as int;
    let front = selected(all, n, true);
    let back = selected(all, n, false);
    let out = resolution_order(all);
    assert forall|a: int, b: int|
        0 <= a < out.len() && 0 <= b < out.len() && (#[trigger] out[b]).0.frontend
            implies !path_strictly_within((#[trigger] out[a]).0.root_path@, out[b].0.root_path@) by {
        let i = if a < front.len() {
            lemma_selected_members(all, n, true, a)
        } else {
            lemma_selected_members(all, n, false, a - front.len())
        };
        let j = if b < front.len() {
            lemma_selected_members(all, n, true, b)
        } else {
            lemma_selected_members(all, n, false, b - front.len())
        };
        assert(all[i] == out[a]);
        assert(all[j] == out[b]);
        assert(!shadowed(all, i));
    }
    assert forall|a: int, b: int|
        0 <= a < b < out.len() && (#[trigger] out[b]).0.frontend implies (
    #[trigger] out[a]).0.frontend by {
        if b >= front.len() {
            let j = lemma_selected_members(all, n, false, b - front.len());
        }
        if a < front.len() {
            let i = lemma_selected_members(all, n, true, a);
        }
    }
}

/// Whether the package at index `i` lies strictly below a frontend package
/// of the list.
fn is_shadowed(all: &Vec<(Foil, FoilMetadata)>, i: usize) -> (r: bool)
    requires
        i < all.len(),
    ensures
        r == shadowed(all@, i as int),
{
    let mut j: usize = 0;
    while j < all.len()
        invariant
            j <= all.len(),
            i < all.len(),
            forall|k: int|
                0 <= k < j ==> !((#[trigger] all@[k]).0.frontend && path_strictly_within(
                    all@[i as int].0.root_path@,
                    all@[k].0.root_path@,
                )),
        decreases all.len() - j,
    {
        if all[j].0.frontend && is_strictly_within(
            all[i].0.root_path.as_str(),
            all[j].0.root_path.as_str(),
        ) {
            return true;
        }
        j += 1;
    }
    false
}

/// Puts the packages resolved in a pass into the order in which they are
/// processed: packages below a frontend package are dropped, and frontend
/// packages come first.
pub fn resolve_foils(resolved: Vec<(Foil, FoilMetadata)>) -> (ordered: Vec<(Foil, FoilMetadata)>)
    ensures
        ordered@ == resolution_order(resolved@),
        containment_holds(ordered@),
{
    let n = resolved.len();
    let mut keep: Vec<bool> = Vec::new();
    let mut i: usize = 0;
    while i < n
        invariant
            i <= n,
            n == resolved.len(),
            keep.len() == i,
            forall|k: int| 0 <= k < i ==> #[trigger] keep@[k] == !shadowed(resolved@, k),
        decreases n - i,
    {
        let hidden = is_shadowed(&resolved, i);
        keep.push(!hidden);
        i += 1;
    }
    let ghost all = resolved@;
    let mut rest = resolved;
    let mut front: Vec<(Foil, FoilMetadata)> = Vec::new();
    let mut back: Vec<(Foil, FoilMetadata)> = Vec::new();
    let mut taken: usize = 0;
    while taken < n
        invariant
            taken <= n,
            n == all.len(),
            keep.len() == n,
            forall|k: int| 0 <= k < n ==> #[trigger] keep@[k] == !shadowed(all, k),
            rest@ == all.skip(taken as int),
            front@ == selected(all, taken as int, true),
            back@ == selected(all, taken as int, false),
        decreases n - taken,
    {
        let item = rest.remove(0);
        proof {
            assert(item == all[taken as int]);
            assert(rest@ =~= all.skip(taken + 1));
        }
        if keep[taken] {
            if item.0.frontend {
                front.push(item);
            } else {
                back.push(item);
            }
        }
        taken += 1;
    }
    front.append(&mut back);
    proof {
        lemma_resolution_order(all);
    }
    front
}

} // verus!
