use foil::nodejs::{find_all_imports, fingerprint_imports, FileStat};
use foil::static_assets::{
    asset_search_pattern, build_static_assets, sort_by_path, FoilFile, FoundEntry, StaticAsset,
};
use foil::time::{ModifiedTime, EARLIEST_SECS};

fn fp_file(path: &str, secs: i64) -> FoilFile {
    FoilFile { path: path.to_string(), modified_date: ModifiedTime::new(secs, 0) }
}

fn fp_pairs(files: &Vec<FoilFile>) -> Vec<(String, i64)> {
    files.iter().map(|f| (f.path.clone(), f.modified_date.secs)).collect()
}

#[test]
fn sort_by_path_orders_paths_as_text() {
    let mut files = vec![
        fp_file("/site/blog/src/b.ts", 30),
        fp_file("/site/blog/package.json", 10),
        fp_file("/site/blog/src/a.ts", 20),
        fp_file("/site/blog/src/A.ts", 40),
        fp_file("/site/blog/src", 50),
    ];
    sort_by_path(&mut files);
    assert_eq!(
        fp_pairs(&files),
        vec![
            ("/site/blog/package.json".to_string(), 10),
            ("/site/blog/src".to_string(), 50),
            ("/site/blog/src/A.ts".to_string(), 40),
            ("/site/blog/src/a.ts".to_string(), 20),
            ("/site/blog/src/b.ts".to_string(), 30),
        ]
    );
}

#[test]
fn sort_by_path_agrees_with_the_order_of_strings() {
    let names = ["é", "z", "a/b", "a", "", "a b", "ab", "A", "日本", "a\u{10000}"];
    let mut files: Vec<FoilFile> = names.iter().map(|n| fp_file(n, 0)).collect();
    sort_by_path(&mut files);
    let mut expected: Vec<String> = names.iter().map(|n| n.to_string()).collect();
    expected.sort();
    let got: Vec<String> = files.iter().map(|f| f.path.clone()).collect();
    assert_eq!(got, expected);
}

#[test]
fn sort_by_path_keeps_the_order_of_equal_paths() {
    let mut files = vec![fp_file("b", 1), fp_file("a", 2), fp_file("b", 3), fp_file("a", 4)];
    sort_by_path(&mut files);
    assert_eq!(
        fp_pairs(&files),
        vec![
            ("a".to_string(), 2),
            ("a".to_string(), 4),
            ("b".to_string(), 1),
            ("b".to_string(), 3)
        ]
    );
}

#[test]
fn sorting_twice_is_sorting_once() {
    let mut once = vec![fp_file("c", 1), fp_file("a", 2), fp_file("b", 3)];
    sort_by_path(&mut once);
    let mut twice = vec![fp_file("c", 1), fp_file("a", 2), fp_file("b", 3)];
    sort_by_path(&mut twice);
    sort_by_path(&mut twice);
    assert_eq!(fp_pairs(&once), fp_pairs(&twice));
}

#[test]
fn two_listings_of_the_same_files_sort_alike() {
    let mut first = vec![fp_file("c", 1), fp_file("a", 2), fp_file("b", 3)];
    let mut second = vec![fp_file("b", 3), fp_file("c", 1), fp_file("a", 2)];
    sort_by_path(&mut first);
    sort_by_path(&mut second);
    assert_eq!(fp_pairs(&first), fp_pairs(&second));
}

#[test]
fn sort_by_path_of_nothing_is_nothing() {
    let mut files: Vec<FoilFile> = Vec::new();
    sort_by_path(&mut files);
    assert!(files.is_empty());
}

#[test]
fn find_all_imports_lists_reported_files_and_the_descriptor() {
    let paths = find_all_imports(
        "[\"/site/blog/src/main.tsx\", \"C:\\\\site\\\\blog\\\\src\\\\util.ts\"]",
        "/site/blog",
    );
    assert_eq!(
        paths,
        vec![
            "/site/blog/src/main.tsx".to_string(),
            "C:/site/blog/src/util.ts".to_string(),
            "/site/blog/package.json".to_string()
        ]
    );
}

#[test]
fn find_all_imports_reads_unreadable_output_as_an_empty_list() {
    assert_eq!(find_all_imports("not json", "/site"), vec!["/site/package.json".to_string()]);
    assert_eq!(find_all_imports("{\"a\": 1}", "/site"), vec!["/site/package.json".to_string()]);
    assert_eq!(find_all_imports("[1, 2]", "/site"), vec!["/site/package.json".to_string()]);
    assert_eq!(find_all_imports("[]", "/site/"), vec!["/site/package.json".to_string()]);
}

#[test]
fn fingerprint_imports_records_times_and_sorts() {
    let observed = vec![
        ("/site/src/b.ts".to_string(), FileStat::Modified(ModifiedTime::new(100, 5))),
        ("/site/package.json".to_string(), FileStat::Timeless),
        ("/site/src/a.ts".to_string(), FileStat::Unreadable),
    ];
    let files = fingerprint_imports(&observed);
    let got: Vec<(String, i64, u32)> = files
        .iter()
        .map(|f| (f.path.clone(), f.modified_date.secs, f.modified_date.nanos))
        .collect();
    assert_eq!(
        got,
        vec![
            ("/site/package.json".to_string(), 0, 0),
            ("/site/src/a.ts".to_string(), EARLIEST_SECS, 0),
            ("/site/src/b.ts".to_string(), 100, 5),
        ]
    );
}

#[test]
fn earliest_time_is_the_earliest_date_of_the_calendar() {
    let earliest = ModifiedTime::earliest();
    assert_eq!(earliest.secs, chrono::DateTime::<chrono::Utc>::MIN_UTC.timestamp());
    assert_eq!(earliest.nanos, chrono::DateTime::<chrono::Utc>::MIN_UTC.timestamp_subsec_nanos());
    assert_eq!(earliest.secs, -8334601228800);
    assert_eq!(ModifiedTime::epoch().secs, 0);
}

#[test]
fn times_are_ordered_by_seconds_then_nanoseconds() {
    let a = ModifiedTime::new(10, 999_999_999);
    let b = ModifiedTime::new(11, 0);
    let c = ModifiedTime::new(11, 1);
    assert!(a.is_before(&b));
    assert!(b.is_before(&c));
    assert!(!c.is_before(&b));
    assert!(!b.is_before(&b));
    assert!(ModifiedTime::new(-5, 0).is_before(&ModifiedTime::new(-4, 0)));
    assert_eq!(c.timestamp(), 11);
}

#[test]
fn asset_search_pattern_is_cleaned_below_the_package() {
    assert_eq!(asset_search_pattern("/site/blog", "assets/**/*"), "/site/blog/assets/**/*");
    assert_eq!(asset_search_pattern("/site/blog/", "./assets/../img/*"), "/site/blog/img/*");
}

#[test]
fn build_static_assets_keeps_the_regular_files() {
    let found = vec![
        FoundEntry {
            path: "/site/blog/assets".to_string(),
            is_file: false,
            modified_date: ModifiedTime::new(1, 0),
        },
        FoundEntry {
            path: "/site/blog/assets/cover.jpg".to_string(),
            is_file: true,
            modified_date: ModifiedTime::new(2, 0),
        },
        FoundEntry {
            path: "/site/blog/assets/img/a.png".to_string(),
            is_file: true,
            modified_date: ModifiedTime::new(3, 0),
        },
    ];
    let mut assets: Vec<StaticAsset> = Vec::new();
    assert!(build_static_assets("/site/blog", "/blog", &found, &mut assets).is_ok());
    let got: Vec<(String, String, i64)> = assets
        .iter()
        .map(|a| (a.path.clone(), a.permalink.clone(), a.modified_date.secs))
        .collect();
    assert_eq!(
        got,
        vec![
            ("/site/blog/assets/cover.jpg".to_string(), "/blog/assets/cover.jpg".to_string(), 2),
            ("/site/blog/assets/img/a.png".to_string(), "/blog/assets/img/a.png".to_string(), 3),
        ]
    );
}

#[test]
fn build_static_assets_refuses_entries_outside_the_package() {
    let found = vec![
        FoundEntry {
            path: "/site/blog/assets/cover.jpg".to_string(),
            is_file: true,
            modified_date: ModifiedTime::new(2, 0),
        },
        FoundEntry {
            path: "/site/other/secret.txt".to_string(),
            is_file: true,
            modified_date: ModifiedTime::new(3, 0),
        },
    ];
    let mut assets: Vec<StaticAsset> = Vec::new();
    let r = build_static_assets("/site/blog", "/blog", &found, &mut assets);
    assert!(matches!(r, Err(foil::error::FoilError::OutsideRoot(_))));
    assert!(assets.is_empty());
}
