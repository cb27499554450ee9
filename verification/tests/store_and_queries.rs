use foil::database::{
    asset_path, authors_as_sql, clean_database, row_exists, row_is_stale, update_foils, RowCheck,
};
use foil::github::{github_hook, reply_status, reply_text, signature_of, update, APIRequest, HookReply};
use foil::graphql::{
    check_permalink, check_permalinks, glob_to_regex, load_keys, page_window, post_recursive,
    post_search, queries,
};
use foil::misc::{database_url_name, get_db_url, public_db_url};
use foil::package_schema::{FoilConfig, NodeAuthor, NodePackage};
use foil::resolver::process_foil_project;
use foil::rss::{cover_mime, feed_copyright, get_cover_permalink_and_path, rss_output_path};
use foil::server::{log_file_name, node_path, renderer_import_map};
use foil::time::ModifiedTime;

fn sq_author(name: &str, email: &str, url: &str) -> NodeAuthor {
    NodeAuthor { name: name.to_string(), email: email.to_string(), url: url.to_string() }
}

fn sq_check(id: i32, descriptor: bool, metadata: bool, permalink: Option<&str>) -> RowCheck {
    RowCheck {
        id,
        permalink: "/blog".to_string(),
        descriptor_exists: descriptor,
        metadata_exists: metadata,
        descriptor_permalink: permalink.map(|p| p.to_string()),
    }
}

#[test]
fn authors_as_sql_writes_row_literals() {
    assert_eq!(authors_as_sql(&Vec::new()), "");
    assert_eq!(
        authors_as_sql(&vec![sq_author("Ada", "ada@x.org", "https://x.org")]),
        "('Ada', 'ada@x.org', 'https://x.org')"
    );
    assert_eq!(
        authors_as_sql(&vec![sq_author("Ada", "a", "b"), sq_author("Grace", "", "")]),
        "('Ada', 'a', 'b'),('Grace', '', '')"
    );
}

#[test]
fn stale_rows_are_cleared() {
    assert!(!row_is_stale(&sq_check(1, true, true, Some("/blog"))));
    assert!(row_is_stale(&sq_check(1, false, true, Some("/blog"))));
    assert!(row_is_stale(&sq_check(1, true, false, Some("/blog"))));
    assert!(row_is_stale(&sq_check(1, true, true, Some("/other"))));
    assert!(row_is_stale(&sq_check(1, true, true, None)));
    let checks = vec![
        sq_check(4, true, true, Some("/blog")),
        sq_check(9, false, false, None),
        sq_check(2, true, true, Some("/moved")),
        sq_check(7, true, true, Some("/blog")),
    ];
    assert_eq!(clean_database(&checks), vec![9, 2]);
    assert!(clean_database(&Vec::new()).is_empty());
}

#[test]
fn rows_are_inserted_on_first_sight_and_updated_thereafter() {
    assert!(!row_exists(-1));
    assert!(!row_exists(0));
    assert!(row_exists(1));
    assert!(row_exists(i32::MAX));
}

#[test]
fn asset_path_drops_the_star_and_cleans() {
    assert_eq!(asset_path("/site/blog", "assets/**/*"), "/site/blog/assets/**");
    assert_eq!(asset_path("/site/blog", "assets/*"), "/site/blog/assets");
    assert_eq!(asset_path("/site/blog", "assets/./img"), "/site/blog/assets/img");
    assert_eq!(asset_path("/site/blog", ""), "/site/blog");
}

#[test]
fn update_foils_builds_the_row_of_a_package() {
    let mut config =
        FoilConfig::with_defaults("/blog".to_string(), "Blog".to_string(), ModifiedTime::new(9, 0));
    config.output_path = "dist".to_string();
    let package = NodePackage {
        name: "blog".to_string(),
        author: sq_author("Ada", "", ""),
        contributors: Vec::new(),
        description: "d".to_string(),
        keywords: vec!["k".to_string()],
        main: "main.tsx".to_string(),
        files: None,
        dev_dependencies: None,
        dependencies: None,
        foil: config,
    };
    let foil = process_foil_project(package, "/site/./blog", Vec::new(), &Vec::new()).unwrap();
    let row = update_foils(&foil, "/site/./blog");
    assert_eq!(row.name, "blog");
    assert_eq!(row.permalink, "/blog");
    assert_eq!(row.main, "/blog/dist/main.js");
    assert_eq!(row.root_path, "/site/blog");
    assert_eq!(row.output_path, "/site/blog/dist");
    assert_eq!(row.authors.len(), 1);
    assert_eq!(row.keywords, vec!["k".to_string()]);
    assert_eq!(row.assets, vec!["assets/**/*".to_string()]);
    assert_eq!(row.rss, vec!["/blog/*".to_string()]);
    assert_eq!(row.date_published, ModifiedTime::new(9, 0));
}

#[test]
fn permalink_lists_are_checked() {
    let ten: Vec<String> = (0..10).map(|i| format!("/p{}", i)).collect();
    assert_eq!(check_permalinks(&ten), Ok(()));
    let eleven: Vec<String> = (0..11).map(|i| format!("/p{}", i)).collect();
    assert_eq!(check_permalinks(&eleven), Err("Permalink list must be < 10!".to_string()));
    let long = "a".repeat(255);
    assert_eq!(
        check_permalinks(&vec!["/ok".to_string(), long.clone(), "b".repeat(300)]),
        Err(format!("Permalinks must have less than 254 characters. Check {}.", long))
    );
    assert_eq!(check_permalink(&"a".repeat(254)), Ok(()));
    assert!(check_permalink(&"é".repeat(128)).is_err());
    assert_eq!(check_permalink(&"é".repeat(127)), Ok(()));
}

#[test]
fn permalink_patterns_become_regular_expressions() {
    assert_eq!(glob_to_regex("/blog/*"), "^\\/blog\\/.*$");
    assert_eq!(glob_to_regex(""), "^$");
    assert_eq!(glob_to_regex("a.b(c)"), "^a\\.b\\(c\\)$");
    assert_eq!(glob_to_regex("$^+=!|,{}[]"), "^\\$\\^\\+\\=\\!\\|\\,\\{\\}\\[\\]$");
    assert_eq!(glob_to_regex("a-b_c?"), "^a-b_c?$");
}

#[test]
fn page_windows_are_bounded_from_above() {
    assert_eq!(page_window(None, None), (0, 10));
    assert_eq!(page_window(Some(5), Some(20)), (5, 20));
    assert_eq!(page_window(Some(10000), Some(100)), (10000, 100));
    assert_eq!(page_window(Some(10001), Some(101)), (10000, 100));
    assert_eq!(page_window(Some(-3), Some(-1)), (-3, -1));
}

#[test]
fn search_text_becomes_a_like_pattern() {
    assert_eq!(post_search("ray tracing"), Ok("%ray tracing%".to_string()));
    assert_eq!(post_search("100%_sure"), Ok("%100sure%".to_string()));
    assert_eq!(post_search(""), Ok("%%".to_string()));
    let long = "x".repeat(255);
    assert_eq!(
        post_search(&long),
        Err(format!("Search string must have less than 254 characters. Check {}.", long))
    );
}

#[test]
fn posts_are_looked_up_from_the_permalink_upwards() {
    assert_eq!(
        post_recursive("/blog/post-a/"),
        Ok(vec!["/blog/post-a".to_string(), "/blog".to_string(), "/".to_string()])
    );
    assert_eq!(post_recursive("/"), Ok(vec!["/".to_string()]));
    assert!(post_recursive(&"a".repeat(255)).is_err());
}

#[test]
fn load_keys_joins_identifiers_with_commas() {
    assert_eq!(load_keys(&vec![3, -1, 20]), "3,-1,20");
    assert_eq!(load_keys(&vec![7]), "7");
    assert_eq!(load_keys(&Vec::new()), "");
    let _ = queries();
}

#[test]
fn signed_push_to_master_asks_for_a_redeploy() {
    let body = "{\"ref\":\"refs/heads/master\"}";
    let header = "sha256=18bd702ca7dab5713101db346ec6cd6768820c090515db9744deff53bc95ff52";
    let master = APIRequest { refs: "refs/heads/master".to_string() };
    let other = APIRequest { refs: "refs/heads/dev".to_string() };
    assert_eq!(
        github_hook(Some(header), "secret", body, Some(&master)),
        HookReply::Accepted { redeploy: true }
    );
    assert_eq!(
        github_hook(Some(header), "secret", body, Some(&other)),
        HookReply::Accepted { redeploy: false }
    );
    let upper = "sha256=18BD702CA7DAB5713101DB346EC6CD6768820C090515DB9744DEFF53BC95FF52";
    assert_eq!(
        github_hook(Some(upper), "secret", body, Some(&master)),
        HookReply::Accepted { redeploy: true }
    );
    assert_eq!(github_hook(Some(header), "secret", body, None), HookReply::UnreadablePayload);
    assert_eq!(github_hook(Some(header), "other", body, Some(&master)), HookReply::BadSignature);
    assert_eq!(github_hook(Some(header), "secret", "{}", Some(&master)), HookReply::BadSignature);
    assert_eq!(
        github_hook(Some("sha256=zz"), "secret", body, Some(&master)),
        HookReply::BadSignature
    );
    assert_eq!(
        github_hook(Some("sha256=18b"), "secret", body, Some(&master)),
        HookReply::BadSignature
    );
    assert_eq!(github_hook(Some("18bd70"), "secret", body, Some(&master)), HookReply::BadSignature);
    assert_eq!(github_hook(None, "secret", body, Some(&master)), HookReply::MissingSignature);
    let empty_key = "sha256=4352b26e33fe0d769a8922a6ba29004109f01688e26acc9e6cb347e5a5afc4da";
    assert_eq!(
        github_hook(Some(empty_key), "", "hello", Some(&master)),
        HookReply::Accepted { redeploy: true }
    );
}

#[test]
fn signature_stands_between_markers() {
    assert_eq!(signature_of("sha256=abcd"), Some("abcd".to_string()));
    assert_eq!(signature_of("x sha256=abcdsha256=ef"), Some("abcd".to_string()));
    assert_eq!(signature_of("sha256="), Some("".to_string()));
    assert_eq!(signature_of("sha1=abcd"), None);
    assert_eq!(signature_of(""), None);
    assert!(update(&APIRequest { refs: "refs/heads/master".to_string() }));
    assert!(!update(&APIRequest { refs: "refs/heads/main".to_string() }));
}

#[test]
fn replies_carry_status_and_text() {
    assert_eq!(reply_status(HookReply::Accepted { redeploy: false }), 202);
    assert_eq!(reply_status(HookReply::MissingSignature), 404);
    assert_eq!(reply_status(HookReply::BadSignature), 404);
    assert_eq!(reply_status(HookReply::UnreadablePayload), 404);
    assert_eq!(reply_text(HookReply::MissingSignature), "Could not find GitHub Signature Header.");
    assert_eq!(
        reply_text(HookReply::BadSignature),
        "GitHub header secret didn't match config secret."
    );
    assert_eq!(reply_text(HookReply::UnreadablePayload), "Could not read payload body.");
    assert_eq!(reply_text(HookReply::Accepted { redeploy: true }), "");
}

#[test]
fn store_address_hides_its_query() {
    assert_eq!(database_url_name(), "FOIL_DATABASE_URL");
    assert_eq!(get_db_url(None), "postgres://localhost/foil");
    assert_eq!(get_db_url(Some("postgres://h/db".to_string())), "postgres://h/db");
    assert_eq!(public_db_url("postgres://h/db?password=x&y=?"), "postgres://h/db");
    assert_eq!(public_db_url("postgres://h/db"), "postgres://h/db");
    assert_eq!(public_db_url("?x"), "");
    assert_eq!(public_db_url(""), "");
}

#[test]
fn covers_lie_below_the_root_of_their_post() {
    let covers = vec!["/blog/post-a/assets/cover.jpg".to_string(), "/x".to_string()];
    assert_eq!(
        get_cover_permalink_and_path("/site/blog/post-a", "/blog/post-a", &covers),
        ("/blog/post-a/assets/cover.jpg".to_string(), "/site/blog/post-a/assets/cover.jpg".to_string())
    );
    assert_eq!(
        get_cover_permalink_and_path("/site/", "/", &vec!["/cover.png".to_string()]),
        ("/cover.png".to_string(), "/site/cover.png".to_string())
    );
    assert_eq!(
        get_cover_permalink_and_path("/site", "/blog", &Vec::new()),
        ("".to_string(), "/site/".to_string())
    );
    assert_eq!(cover_mime("/site/assets/cover.jpg"), "image/jpg");
    assert_eq!(cover_mime("/site/"), "image/");
    assert_eq!(rss_output_path("/site", "dist"), "/site/dist/rss.xml");
    assert_eq!(rss_output_path("/site", "/site/dist"), "/site/dist/rss.xml");
    assert_eq!(feed_copyright("Ada"), "Copyright Ada All Rights Reserved");
}

#[test]
fn renderer_is_started_with_an_import_map() {
    assert_eq!(
        renderer_import_map("site", "/site/dist", &vec!["react".to_string(), "react-dom".to_string()]),
        "        \"site\": \"file:////site/dist/main.js\",\n        \"react\": \"file:////site/dist/react.js\",\n        \"react-dom\": \"file:////site/dist/react-dom.js\",\n"
    );
    assert_eq!(
        renderer_import_map("s", "out/./x", &Vec::new()),
        "        \"s\": \"file:///out/x/main.js\",\n"
    );
    assert_eq!(
        log_file_name("foil-backend-log-", "2024-01-02 03:04:05.678 UTC"),
        "foil-backend-log-2024-01-02_03_04_05_678_UTC.txt"
    );
    assert_eq!(node_path("/b/node_modules", "/w/node_modules"), "/b/node_modules;/w/node_modules");
}
