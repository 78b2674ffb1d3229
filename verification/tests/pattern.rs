use bulk_rename::pattern::CompiledPattern;

#[test]
fn valid_pattern_compiles() {
    assert!(CompiledPattern::compile("(.*)").is_valid());
    assert!(CompiledPattern::compile(r"(.*)\.txt").is_valid());
    assert!(CompiledPattern::compile("").is_valid());
}

#[test]
fn invalid_pattern_is_kept_and_matches_nothing() {
    let pattern = CompiledPattern::compile("(unclosed");
    assert!(!pattern.is_valid());
    assert!(!pattern.is_match("(unclosed"));
    assert!(!pattern.is_match("anything"));
    assert!(!pattern.is_match(""));
    assert_eq!(pattern.render("anything", "$1.bak"), "anything");
    assert_eq!(pattern.render("", "x"), "");
}

#[test]
fn is_match_finds_a_match_anywhere() {
    let pattern = CompiledPattern::compile("o+");
    assert!(pattern.is_match("foo.txt"));
    assert!(pattern.is_match("o"));
    assert!(!pattern.is_match("bar.txt"));
    let anchored = CompiledPattern::compile(r"^a.*\.rs$");
    assert!(anchored.is_match("app.rs"));
    assert!(!anchored.is_match("main.rs"));
}

#[test]
fn render_expands_groups() {
    let pattern = CompiledPattern::compile(r"(.*)\.txt");
    assert_eq!(pattern.render("foo.txt", "$1.bak"), "foo.bak");
    assert_eq!(pattern.render("bar.txt", "$1.bak"), "bar.bak");
    let swap = CompiledPattern::compile(r"(\w+)-(\w+)");
    assert_eq!(swap.render("left-right.md", "${2}_$1"), "right_left.md");
}

#[test]
fn render_replaces_the_first_match_only() {
    let pattern = CompiledPattern::compile("o");
    assert_eq!(pattern.render("foo", "0"), "f0o");
    let digits = CompiledPattern::compile("[0-9]+");
    assert_eq!(digits.render("a1b22c333", "#"), "a#b22c333");
}

#[test]
fn render_leaves_unmatched_names_alone() {
    let pattern = CompiledPattern::compile(r"(.*)\.txt");
    assert_eq!(pattern.render("image.png", "$1.bak"), "image.png");
}

#[test]
fn render_with_empty_template_changes_nothing() {
    let pattern = CompiledPattern::compile("foo");
    assert!(pattern.is_match("foo.txt"));
    assert_eq!(pattern.render("foo.txt", ""), "foo.txt");
}

#[test]
fn render_with_whole_match_template_is_identity() {
    for text in ["(.*)", "o", r"\.", "^", ""] {
        let pattern = CompiledPattern::compile(text);
        for name in ["foo.txt", "Bar", "x.y.z", "ünï.côde"] {
            assert_eq!(pattern.render(name, "$0"), name);
        }
    }
}

#[test]
fn default_texts_are_an_identity_rename() {
    let pattern = CompiledPattern::compile("(.*)");
    assert!(pattern.is_match("anything at all"));
    assert_eq!(pattern.render("anything at all", "$1"), "anything at all");
}
