use bulk_rename::entry::Entry;
use bulk_rename::listing::{load, sort_entries, Listing, ScanItem};
use bulk_rename::ordering::{key_le, key_of};

fn names(entries: &[Entry]) -> Vec<String> {
    entries.iter().map(|e| e.name.clone()).collect()
}

fn key(text: &str) -> Vec<char> {
    text.chars().collect()
}

#[test]
fn entry_new_keeps_kind_and_name() {
    let file = Entry::new(true, "notes.txt");
    assert!(file.is_file);
    assert_eq!(file.name, "notes.txt");
    let dir = Entry::new(false, "src");
    assert!(!dir.is_file);
    assert_eq!(dir.name, "src");
}

#[test]
fn entry_clone_is_equal() {
    let entry = Entry::new(false, "Музыка");
    let copy = entry.clone();
    assert_eq!(copy.is_file, entry.is_file);
    assert_eq!(copy.name, entry.name);
}

#[test]
fn key_is_lowercase_characters() {
    assert_eq!(key_of("ReadMe.MD"), key("readme.md"));
    assert_eq!(key_of(""), Vec::<char>::new());
    assert_eq!(key_of("ÄÖ"), key("äö"));
}

#[test]
fn key_order_is_lexicographic() {
    assert!(key_le(&key(""), &key("")));
    assert!(key_le(&key(""), &key("a")));
    assert!(!key_le(&key("a"), &key("")));
    assert!(key_le(&key("abc"), &key("abd")));
    assert!(!key_le(&key("abd"), &key("abc")));
    assert!(key_le(&key("ab"), &key("abc")));
    assert!(!key_le(&key("abc"), &key("ab")));
    assert!(key_le(&key("same"), &key("same")));
    assert!(key_le(&key("z"), &key("é")));
    assert!(!key_le(&key("é"), &key("z")));
}

#[test]
fn sort_ignores_case() {
    let sorted = sort_entries(vec![
        Entry::new(true, "banana.txt"),
        Entry::new(false, "Cherry"),
        Entry::new(true, "apple.txt"),
    ]);
    assert_eq!(names(&sorted), vec!["apple.txt", "banana.txt", "Cherry"]);
    assert_eq!(sorted.iter().map(|e| e.is_file).collect::<Vec<bool>>(), vec![true, true, false]);
}

#[test]
fn sort_puts_lowercase_a_before_uppercase_b() {
    let sorted = sort_entries(vec![Entry::new(true, "B"), Entry::new(true, "a")]);
    assert_eq!(names(&sorted), vec!["a", "B"]);
}

#[test]
fn sort_keeps_order_of_names_that_differ_in_case_only() {
    let sorted = sort_entries(vec![
        Entry::new(true, "readme"),
        Entry::new(true, "README"),
        Entry::new(true, "ReadMe"),
        Entry::new(true, "a"),
    ]);
    assert_eq!(names(&sorted), vec!["a", "readme", "README", "ReadMe"]);
    let sorted = sort_entries(vec![
        Entry::new(true, "README"),
        Entry::new(true, "zeta"),
        Entry::new(true, "readme"),
    ]);
    assert_eq!(names(&sorted), vec!["README", "readme", "zeta"]);
}

#[test]
fn sort_of_nothing_is_nothing() {
    assert!(sort_entries(Vec::new()).is_empty());
}

#[test]
fn sort_keeps_every_entry() {
    let sorted = sort_entries(vec![
        Entry::new(true, "x"),
        Entry::new(false, "x"),
        Entry::new(true, "m"),
        Entry::new(true, "x"),
    ]);
    assert_eq!(names(&sorted), vec!["m", "x", "x", "x"]);
    assert_eq!(
        sorted.iter().map(|e| e.is_file).collect::<Vec<bool>>(),
        vec![true, true, false, true]
    );
}

#[test]
fn listing_is_in_display_order() {
    let listing = Listing::from_entries(vec![
        Entry::new(true, "foo.txt"),
        Entry::new(true, "bar.txt"),
        Entry::new(false, "Docs"),
    ]);
    assert_eq!(listing.len(), 3);
    assert!(!listing.is_empty());
    assert_eq!(names(listing.entries()), vec!["bar.txt", "Docs", "foo.txt"]);
    assert_eq!(listing.get(0).unwrap().name, "bar.txt");
    assert!(!listing.get(1).unwrap().is_file);
    assert_eq!(listing.get(2).unwrap().name, "foo.txt");
    assert!(listing.get(3).is_none());
}

#[test]
fn empty_listing() {
    let listing = Listing::from_entries(Vec::new());
    assert_eq!(listing.len(), 0);
    assert!(listing.is_empty());
    assert!(listing.entries().is_empty());
    assert!(listing.get(0).is_none());
}

#[test]
fn load_sorts_what_was_found() {
    let loaded = load(Ok(vec![
        ScanItem::Found(Entry::new(true, "b")),
        ScanItem::Found(Entry::new(false, "C")),
        ScanItem::Found(Entry::new(true, "a")),
    ]))
    .unwrap();
    assert_eq!(names(loaded.listing.entries()), vec!["a", "b", "C"]);
    assert!(loaded.error_lines.is_empty());
}

#[test]
fn load_leaves_out_unreadable_children_and_reports_them() {
    let loaded = load(Ok(vec![
        ScanItem::Found(Entry::new(true, "b")),
        ScanItem::MetadataError("permission denied".to_string()),
        ScanItem::Found(Entry::new(true, "a")),
        ScanItem::EntryError("input/output error".to_string()),
    ]))
    .unwrap();
    assert_eq!(names(loaded.listing.entries()), vec!["a", "b"]);
    assert_eq!(
        loaded.error_lines,
        vec![
            "ERROR: Could not read entry metadata: permission denied",
            "ERROR: Could not read entry: input/output error",
        ]
    );
}

#[test]
fn load_of_empty_directory() {
    let loaded = load(Ok(Vec::new())).unwrap();
    assert!(loaded.listing.is_empty());
    assert!(loaded.error_lines.is_empty());
}

#[test]
fn load_fails_on_unreadable_directory() {
    let error = match load(Err("No such file or directory (os error 2)".to_string())) {
        Err(error) => error,
        Ok(_) => panic!("an unreadable directory gave a listing"),
    };
    assert_eq!(
        error.line,
        "ERROR: Could not read directory: No such file or directory (os error 2)"
    );
}
