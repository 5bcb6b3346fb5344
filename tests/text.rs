use rsite::text::{csv_to_vec, is_space, slugify, trim};

#[test]
fn handle_csv_topics() {
    let reference_topics: Vec<String> = vec![
        "One".to_owned(),
        "Two".to_owned(),
        "Three".to_owned(),
        "And More".to_owned(),
    ];
    let topics = "One, Two, Three, And More".to_owned();
    assert_eq!(reference_topics, csv_to_vec(&topics))
}

#[test]
fn csv_trims_each_piece() {
    assert_eq!(csv_to_vec("One, Two,  Three"), vec!["One", "Two", "Three"]);
}

#[test]
fn csv_keeps_empty_pieces() {
    assert_eq!(csv_to_vec("One, Two,"), vec!["One", "Two", ""]);
    assert_eq!(csv_to_vec(""), vec![""]);
    assert_eq!(csv_to_vec(",,"), vec!["", "", ""]);
}

#[test]
fn csv_unicode_whitespace() {
    assert_eq!(csv_to_vec("\u{3000}Été ,\tà b\u{a0}"), vec!["Été", "à b"]);
}

#[test]
fn slug_of_two_words() {
    assert_eq!(slugify("One Two"), "one-two");
    assert_eq!(slugify("And More"), "and-more");
}

#[test]
fn slug_keeps_runs_and_punctuation() {
    assert_eq!(slugify("  A\tB\nC!  "), "--a-b-c!--");
    assert_eq!(slugify("ÉTÉ Ünï"), "ÉtÉ-Ünï");
    assert_eq!(slugify(""), "");
}

#[test]
fn slug_is_idempotent_on_samples() {
    for s in ["One Two", "  Mixed\u{2003}CASE\t", "already-slug", "Ä B"] {
        let once = slugify(s);
        assert_eq!(slugify(&once), once);
    }
}

#[test]
fn trim_both_ends() {
    assert_eq!(trim("  Site Name\n"), "Site Name");
    assert_eq!(trim(" \t\r\n "), "");
    assert_eq!(trim("a b"), "a b");
}

#[test]
fn whitespace_matches_std() {
    for u in 0u32..0x3100 {
        if let Some(c) = char::from_u32(u) {
            assert_eq!(is_space(c), c.is_whitespace(), "{:x}", u);
        }
    }
}
