use foil::router::{
    can_serve, handler_renderer, is_allowed, resolve_in_package, route_request, serve_if, Outcome,
    PackageRow, Resolution, Route,
};

fn rt_post_a() -> PackageRow {
    PackageRow {
        root_path: "/srv/site/blog/post-a".to_string(),
        permalink: "/blog/post-a".to_string(),
        assets: vec!["/blog/post-a/assets/*".to_string()],
        main: "/blog/post-a/main.js".to_string(),
    }
}

fn rt_file(outcome: Outcome) -> Option<String> {
    match outcome {
        Outcome::File(f) => Some(f),
        _ => None,
    }
}

#[test]
fn asset_request_resolves_below_the_package_root() {
    let answers = vec![None, Some(rt_post_a())];
    let outcome = handler_renderer("/blog/post-a/assets/cover.jpg", &answers);
    assert_eq!(rt_file(outcome), Some("/srv/site/blog/post-a/assets/cover.jpg".to_string()));
}

#[test]
fn request_outside_the_whitelist_is_not_found() {
    let answers = vec![Some(rt_post_a())];
    assert!(matches!(handler_renderer("/blog/post-a/other.js", &answers), Outcome::NotFound));
}

#[test]
fn entry_file_is_permitted_without_a_matching_glob() {
    let mut row = rt_post_a();
    row.assets = Vec::new();
    let answers = vec![Some(row)];
    let outcome = handler_renderer("/blog/post-a/main.js", &answers);
    assert_eq!(rt_file(outcome), Some("/srv/site/blog/post-a/main.js".to_string()));
}

#[test]
fn path_without_extension_goes_to_the_renderer() {
    assert!(matches!(handler_renderer("/blog/post-a", &vec![Some(rt_post_a())]), Outcome::Render));
    assert!(matches!(handler_renderer("/", &Vec::new()), Outcome::Render));
    assert!(matches!(route_request("/blog/.hidden"), Route::Render));
}

#[test]
fn route_request_lists_ancestors_nearest_first() {
    match route_request("/blog/post-a/assets/cover.jpg") {
        Route::Lookup(candidates) => assert_eq!(
            candidates,
            vec![
                "/blog/post-a/assets".to_string(),
                "/blog/post-a".to_string(),
                "/blog".to_string(),
                "/".to_string()
            ]
        ),
        Route::Render => panic!("a file request must be looked up"),
    }
    match route_request("/a/../b/x.js") {
        Route::Lookup(candidates) => assert_eq!(
            candidates,
            vec!["/b".to_string(), "/".to_string(), "/a".to_string(), "/".to_string()]
        ),
        Route::Render => panic!("a file request must be looked up"),
    }
}

#[test]
fn nearest_package_is_authoritative() {
    let root = PackageRow {
        root_path: "/srv/site".to_string(),
        permalink: "/".to_string(),
        assets: vec!["**/*".to_string()],
        main: "/main.js".to_string(),
    };
    let answers = vec![None, Some(rt_post_a()), None, Some(root)];
    assert!(matches!(handler_renderer("/blog/post-a/src/secret.ts", &answers), Outcome::NotFound));
    let only_root = vec![
        None,
        None,
        None,
        Some(PackageRow {
            root_path: "/srv/site".to_string(),
            permalink: "/".to_string(),
            assets: vec!["**/*".to_string()],
            main: "/main.js".to_string(),
        }),
    ];
    let outcome = handler_renderer("/blog/post-a/src/secret.ts", &only_root);
    assert_eq!(rt_file(outcome), Some("/srv/site/blog/post-a/src/secret.ts".to_string()));
}

#[test]
fn no_owning_package_is_not_found() {
    assert!(matches!(handler_renderer("/blog/x.js", &vec![None, None]), Outcome::NotFound));
    assert!(matches!(handler_renderer("/blog/x.js", &Vec::new()), Outcome::NotFound));
}

#[test]
fn answers_beyond_the_candidates_are_not_read() {
    let answers = vec![None, Some(rt_post_a())];
    assert!(matches!(handler_renderer("/main.js", &answers), Outcome::NotFound));
}

#[test]
fn relative_asset_patterns_are_anchored_under_the_permalink() {
    let row = PackageRow {
        root_path: "/srv/site/blog".to_string(),
        permalink: "/blog".to_string(),
        assets: vec!["[".to_string(), "assets/**/*".to_string()],
        main: "/blog/main.js".to_string(),
    };
    assert!(can_serve("/blog/assets/img/a.png", &row));
    assert!(can_serve("/blog/main.js", &row));
    assert!(!can_serve("/blog/src/a.ts", &row));
    assert!(!can_serve("/other/assets/a.png", &row));
}

#[test]
fn served_files_never_leave_the_package_root() {
    let row = PackageRow {
        root_path: "/srv/site/blog".to_string(),
        permalink: "/blog".to_string(),
        assets: vec!["*".to_string()],
        main: "/blog/main.js".to_string(),
    };
    assert!(matches!(
        resolve_in_package("/blog/assets/../../secret.txt", &row),
        Resolution::NotFound
    ));
    assert!(matches!(resolve_in_package("/blog/../secret.txt", &row), Resolution::NotFound));
    assert!(matches!(resolve_in_package("/elsewhere/a.txt", &row), Resolution::NotFound));
    match resolve_in_package("/blog//etc/passwd.txt", &row) {
        Resolution::File(f) => assert_eq!(f, "/srv/site/blog/etc/passwd.txt"),
        Resolution::NotFound => panic!("the pattern allows the path"),
    }
    match resolve_in_package("/blog/./a.txt", &row) {
        Resolution::File(f) => assert_eq!(f, "/srv/site/blog/a.txt"),
        Resolution::NotFound => panic!("the pattern allows the path"),
    }
}

#[test]
fn a_request_is_allowed_by_the_entry_file_or_a_matching_pattern() {
    assert!(is_allowed(true, &Vec::new()));
    assert!(is_allowed(true, &vec![None, Some(false)]));
    assert!(is_allowed(false, &vec![None, Some(false), Some(true)]));
    assert!(!is_allowed(false, &vec![None, Some(false)]));
    assert!(!is_allowed(false, &Vec::new()));
}

#[test]
fn serve_if_serves_only_what_is_allowed() {
    let row = rt_post_a();
    assert!(matches!(serve_if("/blog/post-a/assets/cover.jpg", &row, false), Resolution::NotFound));
    match serve_if("/blog/post-a/assets/cover.jpg", &row, true) {
        Resolution::File(f) => assert_eq!(f, "/srv/site/blog/post-a/assets/cover.jpg"),
        Resolution::NotFound => panic!("an allowed path within the package is served"),
    }
    match serve_if("/blog/post-a", &row, true) {
        Resolution::File(f) => assert_eq!(f, "/srv/site/blog/post-a/"),
        Resolution::NotFound => panic!("an allowed path within the package is served"),
    }
    assert!(matches!(serve_if("/blog/post-b/x.js", &row, true), Resolution::NotFound));
    assert!(matches!(serve_if("blog/post-a/x.js", &row, true), Resolution::NotFound));
    assert!(matches!(serve_if("/blog/post-a/../x.js", &row, true), Resolution::NotFound));
}
