use foil::build_mode::{get_build_mode, BuildMode};
use foil::metadata::{
    named_or_default, pinned_runtime_version, write_foil_metadata, DiskState, FoilMetadata,
    FoilMetadataStatus,
};
use foil::resolver::Foil;
use foil::static_assets::FoilFile;
use foil::string_map::StringMap;
use foil::time::ModifiedTime;

fn md_file(path: &str, secs: i64) -> FoilFile {
    FoilFile { path: path.to_string(), modified_date: ModifiedTime::new(secs, 0) }
}

fn md_foil(frontend: bool, files: Vec<FoilFile>) -> Foil {
    Foil {
        name: "blog".to_string(),
        permalink: "/blog".to_string(),
        title: "Blog".to_string(),
        description: String::new(),
        authors: Vec::new(),
        keywords: Vec::new(),
        covers: Vec::new(),
        main: "main.tsx".to_string(),
        date_published: ModifiedTime::new(0, 0),
        date_modified: ModifiedTime::new(0, 0),
        assets: Vec::new(),
        public_modules: Vec::new(),
        source_files: files,
        root_path: "/site/blog".to_string(),
        output_path: "/site/blog".to_string(),
        frontend,
        public_modules_map: StringMap::new(),
        rss: Vec::new(),
        redirects: Vec::new(),
    }
}

fn md_record(mode: &str, files: Vec<FoilFile>) -> FoilMetadata {
    FoilMetadata {
        version: 0,
        mode: mode.to_string(),
        files,
        systemjs_version: "=6.15.1".to_string(),
        public_modules: StringMap::new(),
    }
}

fn md_disk(present: &[&str], manifest: Option<&str>) -> DiskState {
    DiskState {
        present: present.iter().map(|p| p.to_string()).collect(),
        builder_manifest: manifest.map(|m| m.to_string()),
    }
}

fn md_two_files() -> Vec<FoilFile> {
    vec![md_file("/site/blog/main.tsx", 10), md_file("/site/blog/package.json", 20)]
}

#[test]
fn changed_is_the_or_of_the_three() {
    let none = FoilMetadataStatus::default();
    assert!(!none.changed());
    for (f, r, p) in [(true, false, false), (false, true, false), (false, false, true)] {
        let s = FoilMetadataStatus { files_changed: f, runtime_changed: r, public_modules_changed: p };
        assert!(s.changed());
    }
    assert!(FoilMetadataStatus::everything().changed());
}

#[test]
fn unchanged_package_is_unchanged() {
    let stored = md_record("release", md_two_files());
    let foil = md_foil(false, md_two_files());
    let disk = md_disk(&["/site/blog/main.tsx", "/site/blog/package.json"], None);
    let status = stored.verify(&foil, BuildMode::Release, &disk);
    assert_eq!(status, FoilMetadataStatus::default());
}

#[test]
fn another_mode_changes_everything() {
    let stored = md_record("release", md_two_files());
    let foil = md_foil(false, md_two_files());
    let disk = md_disk(&["/site/blog/main.tsx", "/site/blog/package.json"], None);
    let status = stored.verify(&foil, BuildMode::Development, &disk);
    assert_eq!(status, FoilMetadataStatus::everything());
    assert!(status.changed());
    let fresh = FoilMetadata::open(None);
    assert_eq!(fresh.verify(&foil, BuildMode::Release, &disk), FoilMetadataStatus::everything());
}

#[test]
fn deleted_file_changes_files_though_counts_agree() {
    let stored = md_record("release", md_two_files());
    let foil = md_foil(false, md_two_files());
    let disk = md_disk(&["/site/blog/package.json"], None);
    let status = stored.verify(&foil, BuildMode::Release, &disk);
    assert!(status.files_changed);
    assert!(!status.runtime_changed);
    assert!(!status.public_modules_changed);
    assert!(status.changed());
}

#[test]
fn files_change_with_count_time_path_or_emptiness() {
    let all = ["/site/blog/main.tsx", "/site/blog/package.json", "/site/blog/extra.ts"];
    let disk = md_disk(&all, None);
    let stored = md_record("release", md_two_files());
    let more = vec![
        md_file("/site/blog/main.tsx", 10),
        md_file("/site/blog/package.json", 20),
        md_file("/site/blog/extra.ts", 30),
    ];
    assert!(stored.verify_source_files(&md_foil(false, more), &disk));
    let touched = vec![md_file("/site/blog/main.tsx", 11), md_file("/site/blog/package.json", 20)];
    assert!(stored.verify_source_files(&md_foil(false, touched), &disk));
    let renamed = vec![md_file("/site/blog/extra.ts", 10), md_file("/site/blog/package.json", 20)];
    assert!(stored.verify_source_files(&md_foil(false, renamed), &disk));
    let empty_stored = md_record("release", Vec::new());
    assert!(empty_stored.verify_source_files(&md_foil(false, Vec::new()), &disk));
    let shuffled = vec![md_file("/site/blog/package.json", 20), md_file("/site/blog/main.tsx", 10)];
    assert!(!stored.verify_source_files(&md_foil(false, shuffled), &disk));
}

#[test]
fn runtime_changes_only_for_a_frontend() {
    let stored = md_record("release", md_two_files());
    let manifest = "{\"dependencies\": {\"systemjs\": \"=6.15.1\"}}";
    let present = ["/site/blog/main.tsx", "/site/blog/package.json", "/site/blog/system.js"];
    let same = md_disk(&present, Some(manifest));
    assert!(!stored.verify(&md_foil(true, md_two_files()), BuildMode::Release, &same).runtime_changed);
    let newer = md_disk(&present, Some("{\"dependencies\": {\"systemjs\": \"=7.0.0\"}}"));
    assert!(stored.verify(&md_foil(true, md_two_files()), BuildMode::Release, &newer).runtime_changed);
    assert!(!stored.verify(&md_foil(false, md_two_files()), BuildMode::Release, &newer).runtime_changed);
    let gone = md_disk(&present[..2], Some(manifest));
    assert!(stored.verify(&md_foil(true, md_two_files()), BuildMode::Release, &gone).runtime_changed);
    let unreadable = md_disk(&present, None);
    assert!(stored
        .verify(&md_foil(true, md_two_files()), BuildMode::Release, &unreadable)
        .runtime_changed);
}

#[test]
fn pinned_runtime_version_reads_the_builder_manifest() {
    assert_eq!(
        pinned_runtime_version(Some("{\"dependencies\": {\"systemjs\": \"=6.14.3\"}}")),
        Some("=6.14.3".to_string())
    );
    assert_eq!(
        pinned_runtime_version(Some("{\"dependencies\": {\"react\": \"18\"}}")),
        Some("=6.15.1".to_string())
    );
    assert_eq!(
        pinned_runtime_version(Some("{\"dependencies\": {\"systemjs\": 6}}")),
        Some("=6.15.1".to_string())
    );
    assert_eq!(pinned_runtime_version(Some("not json")), Some("=6.15.1".to_string()));
    assert_eq!(pinned_runtime_version(None), None);
    assert_eq!(named_or_default(Some("=1.0.0".to_string())), "=1.0.0");
    assert_eq!(named_or_default(None), "=6.15.1");
}

#[test]
fn public_modules_change_when_missing_new_or_of_another_version() {
    let mut stored = md_record("release", md_two_files());
    stored.public_modules.insert("react".to_string(), "18.2.0".to_string());
    let mut foil = md_foil(true, md_two_files());
    foil.public_modules = vec!["react".to_string()];
    foil.public_modules_map.insert("react".to_string(), "18.2.0".to_string());
    let with = md_disk(&["/site/blog/react.js"], None);
    let without = md_disk(&[], None);
    assert!(!stored.verify_public_modules(&foil, &with));
    assert!(stored.verify_public_modules(&foil, &without));
    foil.public_modules_map.insert("react".to_string(), "18.3.0".to_string());
    assert!(stored.verify_public_modules(&foil, &with));
    let mut newly = md_foil(true, md_two_files());
    newly.public_modules = vec!["react".to_string(), "vue".to_string()];
    newly.public_modules_map.insert("react".to_string(), "18.2.0".to_string());
    newly.public_modules_map.insert("vue".to_string(), "3.0.0".to_string());
    let both = md_disk(&["/site/blog/react.js", "/site/blog/vue.js"], None);
    assert!(stored.verify_public_modules(&newly, &both));
    let none = md_foil(true, md_two_files());
    assert!(!stored.verify_public_modules(&none, &without));
}

#[test]
fn paths_to_probe_lists_files_runtime_and_modules() {
    let stored = md_record("release", md_two_files());
    let mut foil = md_foil(true, md_two_files());
    foil.output_path = "/site/blog/dist".to_string();
    foil.public_modules_map.insert("react".to_string(), "18.2.0".to_string());
    assert_eq!(
        stored.paths_to_probe(&foil),
        vec![
            "/site/blog/main.tsx".to_string(),
            "/site/blog/package.json".to_string(),
            "/site/blog/dist/system.js".to_string(),
            "/site/blog/dist/react.js".to_string()
        ]
    );
}

#[test]
fn written_record_reopens_to_the_same_fingerprints_and_mode() {
    let files = vec![md_file("/site/blog/src/b.ts", 2), md_file("/site/blog/src/a.ts", 1)];
    let mut modules = StringMap::new();
    modules.insert("react".to_string(), "18.2.0".to_string());
    let written =
        write_foil_metadata(files, "=6.15.1".to_string(), modules, BuildMode::Development);
    assert_eq!(written.mode, "development");
    assert_eq!(written.version, 0);
    let reopened = FoilMetadata::open(Some(written));
    assert_eq!(reopened.mode, "development");
    assert_eq!(reopened.systemjs_version, "=6.15.1");
    assert_eq!(reopened.public_modules.get("react"), Some(&"18.2.0".to_string()));
    let paths: Vec<(String, i64)> =
        reopened.files.iter().map(|f| (f.path.clone(), f.modified_date.secs)).collect();
    assert_eq!(
        paths,
        vec![("/site/blog/src/a.ts".to_string(), 1), ("/site/blog/src/b.ts".to_string(), 2)]
    );
    let foil = md_foil(false, vec![md_file("/site/blog/src/b.ts", 2), md_file("/site/blog/src/a.ts", 1)]);
    let disk = md_disk(&["/site/blog/src/a.ts", "/site/blog/src/b.ts"], None);
    assert!(!reopened.verify(&foil, BuildMode::Development, &disk).changed());
}

#[test]
fn open_without_a_record_gives_the_empty_record() {
    let empty = FoilMetadata::open(None);
    assert_eq!(empty.version, 0);
    assert_eq!(empty.mode, "");
    assert!(empty.files.is_empty());
    assert_eq!(empty.systemjs_version, "");
    assert!(empty.public_modules.is_empty());
}

#[test]
fn build_mode_follows_the_flags() {
    assert_eq!(get_build_mode(BuildMode::Release, false, false), BuildMode::Release);
    assert_eq!(get_build_mode(BuildMode::Release, false, true), BuildMode::Development);
    assert_eq!(get_build_mode(BuildMode::Development, true, false), BuildMode::Release);
    assert_eq!(get_build_mode(BuildMode::Development, true, true), BuildMode::Release);
    assert_eq!(BuildMode::Release.name(), "release");
    assert_eq!(BuildMode::Development.name(), "development");
}

#[test]
fn string_map_replaces_and_keeps_order() {
    let mut map = StringMap::new();
    assert!(map.is_empty());
    map.insert("b".to_string(), "1".to_string());
    map.insert("a".to_string(), "2".to_string());
    map.insert("b".to_string(), "3".to_string());
    assert_eq!(map.len(), 2);
    assert_eq!(map.key_at(0), "b");
    assert_eq!(map.value_at(0), "3");
    assert_eq!(map.key_at(1), "a");
    assert_eq!(map.get("a"), Some(&"2".to_string()));
    assert_eq!(map.get("c"), None);
    assert!(map.contains_key("b"));
    assert!(!map.contains_key("B"));
    let copy = map.copy();
    assert_eq!(copy.len(), 2);
    assert_eq!(copy.get("b"), Some(&"3".to_string()));
}
