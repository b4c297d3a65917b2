use local_lens::index::{encode_tags, find_by_substring, parse_tags, run_renaming_process, search_paths, tags_match, IndexRecord};
use local_lens::engine::AppMessage;
use local_lens::tagset::{merge_words, rename_tag, sorted_unique, str_lt};
use local_lens::text::{contains_text, decimal_string, join_tags};

fn v(xs: &[&str]) -> Vec<String> {
    xs.iter().map(|x| x.to_string()).collect()
}

#[test]
fn rename_merges_into_existing_tag() {
    let mut tags = v(&["a", "b"]);
    assert!(rename_tag(&mut tags, &"a".to_string(), &"b".to_string()));
    assert_eq!(tags, v(&["b"]));
}

#[test]
fn rename_without_exact_tag_changes_nothing() {
    let mut tags = v(&["category", "zebra", "apple"]);
    assert!(!rename_tag(&mut tags, &"cat".to_string(), &"dog".to_string()));
    assert_eq!(tags, v(&["category", "zebra", "apple"]));
}

#[test]
fn rename_sorts_the_whole_set() {
    let mut tags = v(&["zebra", "cat", "apple", "zebra"]);
    assert!(rename_tag(&mut tags, &"cat".to_string(), &"mouse".to_string()));
    assert_eq!(tags, v(&["apple", "mouse", "zebra"]));
}

#[test]
fn sort_and_dedup() {
    assert_eq!(sorted_unique(&v(&["b", "a", "b", "", "ab"])), v(&["", "a", "ab", "b"]));
    assert!(str_lt("Z", "a"));
    assert!(str_lt("ab", "abc"));
    assert!(!str_lt("b", "ab"));
}

#[test]
fn merge_keeps_classification_order_first() {
    let mut tags = v(&["dog", "cat"]);
    merge_words(&mut tags, &v(&["cat", "stop", "exit", "stop"]));
    assert_eq!(tags, v(&["dog", "cat", "stop", "exit"]));
}

#[test]
fn search_matches_substring_of_longer_tag() {
    let rows = vec![("/a.jpg".to_string(), encode_tags(&v(&["category"]))), ("/b.jpg".to_string(), encode_tags(&v(&["dog"])))];
    assert!(tags_match("category", "cat"));
    assert_eq!(search_paths(&rows, "cat"), v(&["/a.jpg"]));
    assert_eq!(search_paths(&rows, "Cat"), Vec::<String>::new());
    assert_eq!(search_paths(&rows, ""), v(&["/a.jpg", "/b.jpg"]));
}

#[test]
fn stored_tags_round_trip() {
    let tags = v(&["tabby cat", "window"]);
    let stored = encode_tags(&tags);
    assert_eq!(stored, "tabby cat,window");
    assert_eq!(parse_tags(&stored), tags);
    assert_eq!(parse_tags(" a, b ,,c , "), v(&["a", "b", "c"]));
    assert_eq!(parse_tags(""), Vec::<String>::new());
}

#[test]
fn lookup_reads_records_back() {
    let rows = vec![("/a.jpg".to_string(), "cat, dog".to_string()), ("/b.jpg".to_string(), "bird".to_string())];
    let found = find_by_substring(&rows, "dog");
    assert_eq!(found, vec![IndexRecord { path: "/a.jpg".to_string(), tags: v(&["cat", "dog"]) }]);
}

#[test]
fn renaming_plan_over_found_records() {
    let recs = vec![
        IndexRecord { path: "/a.jpg".to_string(), tags: v(&["cat", "zebra"]) },
        IndexRecord { path: "/b.jpg".to_string(), tags: v(&["category"]) },
    ];
    let plan = run_renaming_process(&"cat".to_string(), &"kitten".to_string(), Ok(recs));
    assert_eq!(plan.opening, vec![AppMessage::Log("Found 2 images with tag 'cat'".to_string())]);
    assert_eq!(plan.records.len(), 2);
    assert_eq!(plan.records[0].progress, AppMessage::Progress(1, 2));
    assert_eq!(plan.records[0].update, Some(IndexRecord { path: "/a.jpg".to_string(), tags: v(&["kitten", "zebra"]) }));
    assert_eq!(plan.records[1].progress, AppMessage::Progress(2, 2));
    assert_eq!(plan.records[1].update, None);
    assert_eq!(plan.closing, vec![AppMessage::Log("Renaming complete.".to_string()), AppMessage::Finished]);
}

#[test]
fn renaming_after_failed_lookup() {
    let plan = run_renaming_process(&"a".to_string(), &"b".to_string(), Err("no table".to_string()));
    assert_eq!(plan.opening, vec![AppMessage::Log("Search error: no table".to_string())]);
    assert!(plan.records.is_empty());
    assert_eq!(plan.closing.last(), Some(&AppMessage::Finished));
}

#[test]
fn text_helpers() {
    assert_eq!(decimal_string(0), "0");
    assert_eq!(decimal_string(1234), "1234");
    assert_eq!(decimal_string(usize::MAX), usize::MAX.to_string());
    assert_eq!(join_tags(&v(&["a", "b", "c"]), ", "), "a, b, c");
    assert_eq!(join_tags(&Vec::new(), ", "), "");
    assert!(contains_text("local_lens_processed", "lens"));
    assert!(!contains_text("len", "lens"));
}
