use foil::paths::{ancestors, clean_path_string, extension, file_name, join, strip_prefix};

#[test]
fn extension_follows_the_last_dot_of_the_file_name() {
    assert_eq!(extension("/blog/post-a/assets/cover.jpg"), Some("jpg".to_string()));
    assert_eq!(extension("/blog/post-a/archive.tar.gz"), Some("gz".to_string()));
    assert_eq!(extension("/blog/post-a"), None);
    assert_eq!(extension("/blog/.hidden"), None);
    assert_eq!(extension("/blog/.hidden.txt"), Some("txt".to_string()));
    assert_eq!(extension("/blog/name."), Some("".to_string()));
    assert_eq!(extension("/blog/a.b/"), Some("b".to_string()));
    assert_eq!(extension("/blog/.."), None);
    assert_eq!(extension("/"), None);
    assert_eq!(extension(""), None);
}

#[test]
fn file_name_is_the_last_component() {
    assert_eq!(file_name("/blog/post-a/main.js"), Some("main.js".to_string()));
    assert_eq!(file_name("/blog/post-a/"), Some("post-a".to_string()));
    assert_eq!(file_name("/blog/post-a/."), Some("post-a".to_string()));
    assert_eq!(file_name("/blog/.."), None);
    assert_eq!(file_name("/"), None);
}

#[test]
fn ancestors_run_from_nearest_to_root() {
    assert_eq!(
        ancestors("/blog/post-a/assets/cover.jpg"),
        vec![
            "/blog/post-a/assets".to_string(),
            "/blog/post-a".to_string(),
            "/blog".to_string(),
            "/".to_string()
        ]
    );
    assert_eq!(ancestors("/"), Vec::<String>::new());
    assert_eq!(ancestors("//blog//a.js"), vec!["/blog".to_string(), "/".to_string()]);
    assert_eq!(ancestors("a/b"), vec!["a".to_string(), "".to_string()]);
}

#[test]
fn join_follows_the_base_unless_absolute() {
    assert_eq!(join("/blog/post-a", "assets/*"), "/blog/post-a/assets/*");
    assert_eq!(join("/blog/post-a/", "assets/*"), "/blog/post-a/assets/*");
    assert_eq!(join("/blog/post-a", "/other/*"), "/other/*");
    assert_eq!(join("/blog", ""), "/blog/");
    assert_eq!(join("", "main.js"), "main.js");
    assert_eq!(join("/", "main.js"), "/main.js");
}

#[test]
fn strip_prefix_leaves_the_relative_rest() {
    assert_eq!(strip_prefix("/srv/site/blog/dist", "/srv/site/blog"), Some("dist".to_string()));
    assert_eq!(strip_prefix("/srv/site/blog", "/srv/site/blog/"), Some("".to_string()));
    assert_eq!(strip_prefix("/srv/site/blog/a/b", "/srv/site"), Some("blog/a/b".to_string()));
    assert_eq!(strip_prefix("/srv/site", "/srv/site/blog"), None);
    assert_eq!(strip_prefix("/srv/sitemap", "/srv/site"), None);
    assert_eq!(strip_prefix("srv/site", "/srv"), None);
}

#[test]
fn clean_path_string_resolves_dots_lexically() {
    assert_eq!(clean_path_string("/blog/./post-a/../post-b//x"), "/blog/post-b/x");
    assert_eq!(clean_path_string("/blog/post-a/"), "/blog/post-a");
    assert_eq!(clean_path_string("/.."), "/");
    assert_eq!(clean_path_string(""), ".");
}
