use foil::error::FoilError;
use foil::metadata::FoilMetadata;
use foil::package_schema::{
    default_assets, default_empty_str, default_empty_vec, default_false, default_rss_vec,
    FoilConfig, NodeAuthor, NodePackage,
};
use foil::resolver::{
    derive_name, is_descriptor, is_foil_package, latest_modified, metadata_path,
    process_foil_project, resolve_foils, resolve_public_modules, select_covers, Descriptor,
    Discovery, Foil,
};
use foil::static_assets::{FoilFile, FoundEntry, StaticAsset};
use foil::string_map::StringMap;
use foil::time::ModifiedTime;

fn rs_author(name: &str) -> NodeAuthor {
    NodeAuthor { name: name.to_string(), email: String::new(), url: String::new() }
}

fn rs_package(permalink: &str, frontend: bool) -> NodePackage {
    let mut foil =
        FoilConfig::with_defaults(permalink.to_string(), "My Post".to_string(), ModifiedTime::new(7, 0));
    foil.frontend = frontend;
    NodePackage {
        name: String::new(),
        author: rs_author("Ada"),
        contributors: vec![rs_author("Grace")],
        description: "A post".to_string(),
        keywords: vec!["k".to_string()],
        main: "src/main.tsx".to_string(),
        files: None,
        dev_dependencies: None,
        dependencies: None,
        foil,
    }
}

fn rs_file(path: &str, secs: i64, nanos: u32) -> FoilFile {
    FoilFile { path: path.to_string(), modified_date: ModifiedTime::new(secs, nanos) }
}

fn rs_entry(path: &str, is_file: bool) -> FoundEntry {
    FoundEntry { path: path.to_string(), is_file, modified_date: ModifiedTime::new(1, 0) }
}

fn rs_asset(path: &str, permalink: &str) -> StaticAsset {
    StaticAsset {
        path: path.to_string(),
        permalink: permalink.to_string(),
        modified_date: ModifiedTime::new(1, 0),
    }
}

fn rs_resolved(root: &str, frontend: bool) -> (Foil, FoilMetadata) {
    let foil = process_foil_project(rs_package(root, frontend), root, Vec::new(), &Vec::new());
    (foil.unwrap(), FoilMetadata::open(None))
}

fn rs_roots(list: &Vec<(Foil, FoilMetadata)>) -> Vec<String> {
    list.iter().map(|p| p.0.root_path.clone()).collect()
}

#[test]
fn descriptor_defaults_are_what_they_say() {
    assert!(!default_false());
    assert_eq!(default_empty_str(), "");
    assert_eq!(default_rss_vec(), vec!["/blog/*".to_string()]);
    assert_eq!(default_assets(), vec!["assets/**/*".to_string()]);
    assert!(default_empty_vec::<String>().is_empty());
    let config = FoilConfig::with_defaults("/p".to_string(), "T".to_string(), ModifiedTime::new(3, 4));
    assert_eq!(config.permalink, "/p");
    assert_eq!(config.title, "T");
    assert_eq!(config.date_published, ModifiedTime::new(3, 4));
    assert_eq!(config.assets, vec!["assets/**/*".to_string()]);
    assert!(config.public_modules.is_empty());
    assert_eq!(config.output_path, "");
    assert!(!config.frontend);
    assert_eq!(config.rss, vec!["/blog/*".to_string()]);
    assert!(config.redirects.is_empty());
}

#[test]
fn process_foil_project_resolves_every_field() {
    let mut package = rs_package("/blog/post-a", false);
    package.foil.public_modules = vec!["react".to_string(), "vue".to_string(), "left".to_string()];
    let mut deps = StringMap::new();
    deps.insert("react".to_string(), "18.2.0".to_string());
    deps.insert("other".to_string(), "1.0.0".to_string());
    let mut dev = StringMap::new();
    dev.insert("react".to_string(), "18.3.0".to_string());
    dev.insert("vue".to_string(), "3.0.0".to_string());
    package.dependencies = Some(deps);
    package.dev_dependencies = Some(dev);
    let files = vec![
        rs_file("/site/blog/post-a/src/main.tsx", 50, 0),
        rs_file("/site/blog/post-a/package.json", 70, 1),
        rs_file("/site/blog/post-a/src/a.ts", 70, 0),
    ];
    let found = vec![
        rs_entry("/site/blog/post-a/assets/cover.svg", true),
        rs_entry("/site/blog/post-a/assets", false),
        rs_entry("/site/blog/post-a/assets/cover.jpg", true),
        rs_entry("/site/blog/post-a/assets/other.png", true),
        rs_entry("/site/blog/post-a/assets/cover.png", true),
    ];
    let foil = process_foil_project(package, "/site/blog/post-a", files, &found).unwrap();
    assert_eq!(foil.name, "my-post");
    assert_eq!(foil.permalink, "/blog/post-a");
    assert_eq!(foil.title, "My Post");
    assert_eq!(foil.description, "A post");
    let authors: Vec<String> = foil.authors.iter().map(|a| a.name.clone()).collect();
    assert_eq!(authors, vec!["Ada".to_string(), "Grace".to_string()]);
    assert_eq!(foil.keywords, vec!["k".to_string()]);
    assert_eq!(
        foil.covers,
        vec![
            "/blog/post-a/assets/cover.png".to_string(),
            "/blog/post-a/assets/cover.jpg".to_string(),
            "/blog/post-a/assets/cover.svg".to_string()
        ]
    );
    assert_eq!(foil.main, "src/main.tsx");
    assert_eq!(foil.date_published, ModifiedTime::new(7, 0));
    assert_eq!(foil.date_modified, ModifiedTime::new(70, 1));
    assert_eq!(foil.assets, vec!["assets/**/*".to_string()]);
    assert_eq!(foil.public_modules.len(), 3);
    let paths: Vec<String> = foil.source_files.iter().map(|f| f.path.clone()).collect();
    assert_eq!(
        paths,
        vec![
            "/site/blog/post-a/package.json".to_string(),
            "/site/blog/post-a/src/a.ts".to_string(),
            "/site/blog/post-a/src/main.tsx".to_string()
        ]
    );
    assert_eq!(foil.root_path, "/site/blog/post-a");
    assert_eq!(foil.output_path, "/site/blog/post-a");
    assert!(!foil.frontend);
    assert_eq!(foil.public_modules_map.len(), 2);
    assert_eq!(foil.public_modules_map.get("react"), Some(&"18.3.0".to_string()));
    assert_eq!(foil.public_modules_map.get("vue"), Some(&"3.0.0".to_string()));
    assert_eq!(foil.public_modules_map.get("left"), None);
    assert_eq!(foil.public_modules_map.get("other"), None);
    assert_eq!(foil.rss, vec!["/blog/*".to_string()]);
    assert!(foil.requires_build());
    assert_eq!(foil.resolve_js_main(), "/blog/post-a/main.js");
}

#[test]
fn output_path_is_taken_below_the_package() {
    let mut package = rs_package("/", true);
    package.name = "site".to_string();
    package.foil.output_path = "dist".to_string();
    let foil = process_foil_project(package, "/site", Vec::new(), &Vec::new()).unwrap();
    assert_eq!(foil.name, "site");
    assert_eq!(foil.output_path, "/site/dist");
    assert_eq!(foil.resolve_js_main(), "/dist/main.js");
    assert_eq!(foil.date_modified, ModifiedTime::earliest());
    let mut inside = rs_package("/", true);
    inside.foil.output_path = "/site/public/out".to_string();
    let foil = process_foil_project(inside, "/site", Vec::new(), &Vec::new()).unwrap();
    assert_eq!(foil.output_path, "/site/public/out");
    assert_eq!(foil.resolve_js_main(), "/public/out/main.js");
}

#[test]
fn output_path_outside_the_package_is_refused() {
    let mut package = rs_package("/", true);
    package.foil.output_path = "/elsewhere".to_string();
    let r = process_foil_project(package, "/site", Vec::new(), &Vec::new());
    assert!(matches!(r, Err(FoilError::OutsideRoot(_))));
}

#[test]
fn found_entry_outside_the_package_is_refused() {
    let found = vec![rs_entry("/other/assets/cover.jpg", true)];
    let r = process_foil_project(rs_package("/", true), "/site", Vec::new(), &found);
    assert!(matches!(r, Err(FoilError::OutsideRoot(_))));
}

#[test]
fn derive_name_follows_the_title() {
    assert_eq!(derive_name("My Post"), "my-post");
    assert_eq!(derive_name("Ray-Tracing  Denoising_Notes"), "raytracing-denoising-notes");
    assert_eq!(derive_name("A   B"), "a--b");
    assert_eq!(derive_name("ÉCOLE"), "école");
    assert_eq!(derive_name(""), "");
}

#[test]
fn requires_build_goes_by_the_extension_of_the_entry_file() {
    let mut foil = rs_resolved("/site", false).0;
    for (main, expected) in [
        ("src/main.ts", true),
        ("src/main.tsx", true),
        ("post.mdx", true),
        ("main.js", false),
        ("main.md", false),
        ("main", false),
        ("src.ts/main", false),
        (".ts", false),
        ("", false),
    ] {
        foil.main = main.to_string();
        assert_eq!(foil.requires_build(), expected, "{}", main);
    }
}

#[test]
fn latest_modified_is_the_latest_time() {
    assert_eq!(latest_modified(&Vec::new()), ModifiedTime::earliest());
    let files = vec![rs_file("a", 5, 9), rs_file("b", 6, 0), rs_file("c", 6, 1), rs_file("d", -1, 0)];
    assert_eq!(latest_modified(&files), ModifiedTime::new(6, 1));
}

#[test]
fn select_covers_puts_the_vector_cover_last() {
    let assets = vec![
        rs_asset("/s/a/cover.svg", "/a/cover.svg"),
        rs_asset("/s/a/cover.jpg", "/a/cover.jpg"),
        rs_asset("/s/a/cover.txt", "/a/cover.txt"),
        rs_asset("/s/a/cover.gif", "/a/cover.gif"),
        rs_asset("/s/a/notcover.png", "/a/notcover.png"),
        rs_asset("/s/a/cover.mp4", "/a/cover.mp4"),
    ];
    assert_eq!(
        select_covers(&assets),
        vec![
            "/a/cover.mp4".to_string(),
            "/a/cover.gif".to_string(),
            "/a/cover.jpg".to_string(),
            "/a/cover.svg".to_string()
        ]
    );
}

#[test]
fn resolve_public_modules_prefers_development_dependencies() {
    let mut deps = StringMap::new();
    deps.insert("a".to_string(), "1".to_string());
    deps.insert("b".to_string(), "2".to_string());
    let mut dev = StringMap::new();
    dev.insert("b".to_string(), "3".to_string());
    let declared = vec!["b".to_string(), "a".to_string(), "c".to_string()];
    let map = resolve_public_modules(&declared, &Some(deps), &Some(dev));
    assert_eq!(map.len(), 2);
    assert_eq!(map.get("a"), Some(&"1".to_string()));
    assert_eq!(map.get("b"), Some(&"3".to_string()));
    assert!(resolve_public_modules(&declared, &None, &None).is_empty());
}

#[test]
fn discovery_passes_over_excluded_names() {
    assert!(is_foil_package("blog"));
    assert!(is_foil_package("package.json"));
    assert!(!is_foil_package("node_modules"));
    assert!(!is_foil_package("target"));
    assert!(!is_foil_package(".git"));
    assert!(!is_foil_package("."));
    assert!(!is_foil_package(""));
    assert!(is_foil_package("targets"));
    assert!(is_descriptor("package.json"));
    assert!(!is_descriptor("Package.json"));
    assert_eq!(metadata_path("/site/blog"), "/site/blog/foil-meta.json");
}

#[test]
fn discovery_stops_below_a_frontend_package() {
    let mut walk = Discovery::new("/site");
    let first = walk.next_directory().unwrap();
    assert_eq!(first, "/site");
    let names = vec![
        "blog".to_string(),
        "node_modules".to_string(),
        ".git".to_string(),
        "app".to_string(),
    ];
    walk.visited(&first, Descriptor::Absent, &names);
    assert_eq!(walk.pending, vec!["/site/blog".to_string(), "/site/app".to_string()]);
    let app = walk.next_directory().unwrap();
    assert_eq!(app, "/site/app");
    walk.visited(&app, Descriptor::Frontend, &vec!["nested".to_string()]);
    assert_eq!(walk.pending, vec!["/site/blog".to_string()]);
    let blog = walk.next_directory().unwrap();
    walk.visited(&blog, Descriptor::Package, &vec!["post-a".to_string(), "target".to_string()]);
    assert_eq!(walk.pending, vec!["/site/blog/post-a".to_string()]);
    let post = walk.next_directory().unwrap();
    walk.visited(&post, Descriptor::Package, &Vec::new());
    assert_eq!(walk.next_directory(), None);
    assert_eq!(
        walk.packages,
        vec!["/site/app".to_string(), "/site/blog".to_string(), "/site/blog/post-a".to_string()]
    );
}

#[test]
fn resolve_foils_puts_frontend_packages_first() {
    let resolved = vec![
        rs_resolved("/site/blog", false),
        rs_resolved("/site/app", true),
        rs_resolved("/site/blog/post-a", false),
        rs_resolved("/site/shop", true),
    ];
    let ordered = resolve_foils(resolved);
    assert_eq!(
        rs_roots(&ordered),
        vec![
            "/site/app".to_string(),
            "/site/shop".to_string(),
            "/site/blog".to_string(),
            "/site/blog/post-a".to_string()
        ]
    );
}

#[test]
fn resolve_foils_drops_packages_below_a_frontend_package() {
    let resolved = vec![
        rs_resolved("/site/app/inner", false),
        rs_resolved("/site/app", true),
        rs_resolved("/site/app/inner/deep", true),
        rs_resolved("/site/application", false),
        rs_resolved("/site/blog", false),
        rs_resolved("/site/blog/post-a", false),
        rs_resolved("/site/app/", true),
    ];
    let ordered = resolve_foils(resolved);
    assert_eq!(
        rs_roots(&ordered),
        vec![
            "/site/app".to_string(),
            "/site/app/".to_string(),
            "/site/application".to_string(),
            "/site/blog".to_string(),
            "/site/blog/post-a".to_string()
        ]
    );
    for a in ordered.iter() {
        for b in ordered.iter() {
            if b.0.frontend {
                assert!(!foil::paths::is_strictly_within(&a.0.root_path, &b.0.root_path));
            }
        }
    }
}
