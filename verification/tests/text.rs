use relayer::text::{
    chars_of, clone_texts, insert_text, precedes, same_text, sorted_unique, trim_end_matches,
    trim_start_matches,
};

#[test]
fn same_text_compares_characters() {
    assert!(same_text("", ""));
    assert!(same_text("room", "room"));
    assert!(!same_text("room", "rooms"));
    assert!(!same_text("room", "Room"));
    assert!(same_text("grüße", "grüße"));
    assert!(!same_text("grüße", "grusse"));
}

#[test]
fn precedes_is_the_order_of_str() {
    let samples = ["", "!a", "!a:x", "!b", "!B", "a", "ab", "b", "é", "z", "日本"];
    for a in samples {
        for b in samples {
            assert_eq!(precedes(a, b), a < b, "{a:?} < {b:?}");
        }
    }
}

#[test]
fn chars_of_lists_characters() {
    assert_eq!(chars_of("aé日"), vec!['a', 'é', '日']);
    assert_eq!(chars_of(""), Vec::<char>::new());
}

#[test]
fn trim_start_removes_every_copy() {
    assert_eq!(trim_start_matches("ababc", "ab"), "c");
    assert_eq!(trim_start_matches("abc", "bc"), "abc");
    assert_eq!(trim_start_matches("abab", "ab"), "");
    assert_eq!(trim_start_matches("abc", ""), "abc");
    assert_eq!(trim_start_matches("", "ab"), "");
    assert_eq!(trim_start_matches("ééa", "é"), "a");
    assert_eq!(trim_start_matches("ababc", "ab"), "ababc".trim_start_matches("ab"));
}

#[test]
fn trim_end_removes_the_run() {
    assert_eq!(trim_end_matches("a///", '/'), "a");
    assert_eq!(trim_end_matches("a/b", '/'), "a/b");
    assert_eq!(trim_end_matches("///", '/'), "");
    assert_eq!(trim_end_matches("", '/'), "");
    assert_eq!(trim_end_matches("日/", '/'), "日");
}

#[test]
fn sorted_unique_orders_and_drops_repeats() {
    let texts = vec![
        "!c:x".to_string(),
        "!a:x".to_string(),
        "!b:x".to_string(),
        "!a:x".to_string(),
        "!c:x".to_string(),
    ];
    assert_eq!(sorted_unique(texts), vec!["!a:x", "!b:x", "!c:x"]);
    assert_eq!(sorted_unique(Vec::new()), Vec::<String>::new());
}

#[test]
fn sorted_unique_agrees_with_sort_and_dedup() {
    let texts: Vec<String> =
        ["b", "a", "", "ab", "B", "a", "é", "b", "aa", ""].iter().map(|s| s.to_string()).collect();
    let mut expected = clone_texts(&texts);
    expected.sort();
    expected.dedup();
    assert_eq!(sorted_unique(texts), expected);
}

#[test]
fn insert_text_keeps_order() {
    let mut texts = vec!["a".to_string(), "c".to_string()];
    insert_text(&mut texts, "b".to_string());
    assert_eq!(texts, vec!["a", "b", "c"]);
    insert_text(&mut texts, "b".to_string());
    assert_eq!(texts, vec!["a", "b", "c"]);
    insert_text(&mut texts, "".to_string());
    assert_eq!(texts, vec!["", "a", "b", "c"]);
    insert_text(&mut texts, "d".to_string());
    assert_eq!(texts, vec!["", "a", "b", "c", "d"]);
}
