use std::path::{Path, PathBuf};

use rsite::content::{newline_terminated, order_matches, MatchError};

#[test]
fn invalid_parent_path() {
    let dir = tempfile::tempdir().unwrap();
    let pat = format!("{}/nope/*.md", dir.path().display());
    let parent = Path::new(&pat).parent().unwrap();
    let paths = order_matches::<PathBuf>(parent.exists(), Vec::new());
    assert!(paths.is_err());
}

#[test]
fn missing_parent_refused_even_with_matches() {
    let r = order_matches(false, vec![Some("a/2020.md".to_string())]);
    assert_eq!(r, Err(MatchError::NoValidParent));
}

#[test]
fn matches_newest_first() {
    let entries = vec![
        Some("p/2020-01-01.md".to_string()),
        None,
        Some("p/2021-06-30.md".to_string()),
        Some("p/2022-12-31.md".to_string()),
        None,
    ];
    let r = order_matches(true, entries).unwrap();
    assert_eq!(r, vec!["p/2022-12-31.md", "p/2021-06-30.md", "p/2020-01-01.md"]);
    for w in r.windows(2) {
        assert!(w[0] > w[1]);
    }
}

#[test]
fn no_matches_is_empty() {
    let r = order_matches::<String>(true, vec![None, None]).unwrap();
    assert!(r.is_empty());
}

#[test]
fn newline_added_once() {
    assert_eq!(newline_terminated("line1"), "line1\n");
    assert_eq!(newline_terminated("line1\n"), "line1\n");
    assert_eq!(newline_terminated(""), "\n");
    assert_eq!(newline_terminated("a\n\n"), "a\n\n");
}
