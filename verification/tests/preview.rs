use bulk_rename::entry::Entry;
use bulk_rename::listing::Listing;
use bulk_rename::pattern::CompiledPattern;
use bulk_rename::preview::{PatternState, PreviewRow};

fn listing(names: &[&str]) -> Listing {
    Listing::from_entries(names.iter().map(|name| Entry::new(true, name)).collect())
}

fn state(match_text: &str, replace_text: &str) -> PatternState {
    PatternState { match_text: match_text.to_string(), replace_text: replace_text.to_string() }
}

fn rows(names: &[&str], match_text: &str, replace_text: &str) -> Vec<PreviewRow> {
    let pattern = CompiledPattern::compile(match_text);
    bulk_rename::preview::derive(&listing(names), &pattern, &state(match_text, replace_text))
}

#[test]
fn default_pattern_state() {
    let state = PatternState::default();
    assert_eq!(state.match_text, "(.*)");
    assert_eq!(state.replace_text, "$1");
}

#[test]
fn preview_keeps_listing_order_and_length() {
    let names = ["delta", "Alpha", "charlie", "Bravo", "echo"];
    let listing = listing(&names);
    let pattern = CompiledPattern::compile("a");
    let rows = bulk_rename::preview::derive(&listing, &pattern, &state("a", "_"));
    assert_eq!(rows.len(), listing.len());
    for (i, row) in rows.iter().enumerate() {
        assert_eq!(row.entry.name, listing.get(i).unwrap().name);
        assert_eq!(row.entry.is_file, listing.get(i).unwrap().is_file);
    }
    assert_eq!(
        rows.iter().map(|r| r.entry.name.as_str()).collect::<Vec<&str>>(),
        vec!["Alpha", "Bravo", "charlie", "delta", "echo"]
    );
}

#[test]
fn preview_of_txt_to_bak() {
    let rows = rows(&["foo.txt", "bar.txt"], r"(.*)\.txt", "$1.bak");
    assert_eq!(rows.len(), 2);
    assert_eq!(rows[0].entry.name, "bar.txt");
    assert!(rows[0].matched);
    assert_eq!(rows[0].rendered_name, "bar.bak");
    assert!(rows[0].renames());
    assert_eq!(rows[1].entry.name, "foo.txt");
    assert!(rows[1].matched);
    assert_eq!(rows[1].rendered_name, "foo.bak");
    assert!(rows[1].renames());
}

#[test]
fn preview_marks_only_matching_rows() {
    let rows = rows(&["a.txt", "b.png", "c.txt"], r"\.txt$", ".md");
    assert_eq!(
        rows.iter().map(|r| r.matched).collect::<Vec<bool>>(),
        vec![true, false, true]
    );
    assert_eq!(
        rows.iter().map(|r| r.rendered_name.as_str()).collect::<Vec<&str>>(),
        vec!["a.md", "b.png", "c.md"]
    );
    assert_eq!(
        rows.iter().map(|r| r.renames()).collect::<Vec<bool>>(),
        vec![true, false, true]
    );
}

#[test]
fn invalid_pattern_gives_unmatched_identity_rows() {
    let rows = rows(&["foo.txt", "bar.txt", "(x"], "(x", "$1.bak");
    assert_eq!(rows.len(), 3);
    for row in &rows {
        assert!(!row.matched);
        assert_eq!(row.rendered_name, row.entry.name);
        assert!(!row.renames());
    }
}

#[test]
fn whole_match_template_gives_identity_rows() {
    let rows = rows(&["foo.txt", "bar.txt", "Baz"], "(.*)", "$0");
    for row in &rows {
        assert!(row.matched);
        assert_eq!(row.rendered_name, row.entry.name);
        assert!(!row.renames());
    }
}

#[test]
fn empty_template_gives_identity_rows() {
    let rows = rows(&["foo.txt", "bar.txt"], "foo", "");
    assert_eq!(rows[0].entry.name, "bar.txt");
    assert!(!rows[0].matched);
    assert!(rows[1].matched);
    for row in &rows {
        assert_eq!(row.rendered_name, row.entry.name);
        assert!(!row.renames());
    }
}

#[test]
fn preview_of_empty_listing_is_empty() {
    assert!(rows(&[], "(.*)", "$1").is_empty());
}

#[test]
fn same_inputs_give_same_rows() {
    let first = rows(&["one", "two", "three"], "t(.)", "T$1");
    let second = rows(&["one", "two", "three"], "t(.)", "T$1");
    assert_eq!(first.len(), second.len());
    for (a, b) in first.iter().zip(second.iter()) {
        assert_eq!(a.entry.name, b.entry.name);
        assert_eq!(a.matched, b.matched);
        assert_eq!(a.rendered_name, b.rendered_name);
    }
}

#[test]
fn row_clone_is_equal() {
    let rows = rows(&["foo.txt"], "foo", "bar");
    let copy = rows[0].clone();
    assert_eq!(copy.entry.name, "foo.txt");
    assert!(copy.matched);
    assert_eq!(copy.rendered_name, "bar.txt");
}
