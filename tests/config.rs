use std::path::{Path, PathBuf};

use rsite::config::{AppConfig, DocPaths, Server, Site};

#[test]
fn default_server() {
    let s = Server::new();
    assert_eq!(s.bind, "0.0.0.0");
    assert_eq!(s.port, 9090);
}

#[test]
fn docpaths_under_base() {
    let d = DocPaths::new("/srv/blog");
    assert_eq!(d.templates, "/srv/blog/site/templates");
    assert_eq!(d.webroot, "/srv/blog/site/webroot");
}

#[test]
fn site_from_answers() {
    let s = Site::new_from_input("  Site Name\n", "Author Name\n", " One, Two, Three, And More \n");
    assert_eq!(s.name, "Site Name");
    assert_eq!(s.author, "Author Name");
    assert_eq!(s.template, "default.tmpl");
    assert_eq!(s.topics, vec!["One", "Two", "Three", "And More"]);
}

#[test]
fn generate_my_site() {
    let c = AppConfig::generate("/tmp/x", "MySite\n", "Alice\n", "Foo, Bar\n");
    assert_eq!(c.site.name, "MySite");
    assert_eq!(c.site.author, "Alice");
    assert_eq!(c.site.topics, vec!["Foo", "Bar"]);
    assert_eq!(c.server, Server::new());
    assert_eq!(c.docpaths, DocPaths::new("/tmp/x"));
    let dirs = c.create_paths();
    assert!(dirs.contains(&"/tmp/x/site/webroot/foo/posts".to_string()));
    assert!(dirs.contains(&"/tmp/x/site/webroot/bar/ext".to_string()));
    assert!(dirs.contains(&"/tmp/x/site/templates".to_string()));
}

#[test]
fn tree_in_order() {
    let c = AppConfig::generate("b", "n", "a", "One, And More");
    assert_eq!(
        c.create_paths(),
        vec![
            "b/site/templates",
            "b/site/webroot/static/ext",
            "b/site/webroot/main/ext",
            "b/site/webroot/main/posts",
            "b/site/webroot/one/ext",
            "b/site/webroot/one/posts",
            "b/site/webroot/and-more/ext",
            "b/site/webroot/and-more/posts",
        ]
    );
}

#[test]
fn build_config_from_input() {
    let dir = tempfile::tempdir().unwrap();
    let base = dir.path().display().to_string();
    let config = AppConfig::generate(&base, "Site Name\n", "Author Name\n", "One, Two, Three, And More\n");
    // Each directory is created with its missing ancestors.
    let created: Vec<PathBuf> = config.create_paths().iter().map(PathBuf::from).collect();
    let tmp_dir = &dir.path();
    let core = vec![
        tmp_dir.join("site"),
        tmp_dir.join("site/templates"),
        tmp_dir.join("site/webroot"),
        tmp_dir.join("site/webroot/static/ext"),
        tmp_dir.join("site/webroot/main/ext"),
        tmp_dir.join("site/webroot/main/posts"),
        tmp_dir.join("site/webroot/one/ext"),
        tmp_dir.join("site/webroot/one/posts"),
        tmp_dir.join("site/webroot/two/ext"),
        tmp_dir.join("site/webroot/two/posts"),
        tmp_dir.join("site/webroot/three/ext"),
        tmp_dir.join("site/webroot/three/posts"),
        tmp_dir.join("site/webroot/and-more/ext"),
        tmp_dir.join("site/webroot/and-more/posts"),
    ];
    for p in core {
        assert!(created.iter().any(|c| c.starts_with(Path::new(&p))), "{}", p.display());
    }
}
