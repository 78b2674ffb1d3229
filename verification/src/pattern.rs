//! The pattern engine: a match pattern as the user typed it, tested against
//! names and used to rewrite them. A pattern that the engine cannot parse is
//! kept and matches nothing.

use vstd::prelude::*;
use regex::Regex;

verus! {

/// Whether the engine accepts `pattern` as a regular expression.
pub uninterp spec fn pattern_compiles(pattern: Seq<char>) -> bool;

/// Whether `pattern`, once compiled, finds a match somewhere in `text`.
pub uninterp spec fn pattern_finds(pattern: Seq<char>, text: Seq<char>) -> bool;

/// `text` with the leftmost match of `pattern` replaced by the expansion of
/// `template`, in which `$0`, `$1`, ... and `$name` stand for what the
/// pattern's groups captured.
pub uninterp spec fn pattern_rewrite(
    pattern: Seq<char>,
    text: Seq<char>,
    template: Seq<char>,
) -> Seq<char>;

/// The template that stands for the whole of a match: `$0`.
pub open spec fn whole_match_template() -> Seq<char> {
    seq!['$', '0']
}

/// `regex::Regex::new`: reports whether it returns `Ok` for `pattern`, which
/// depends on the pattern text alone.
#[verifier::external_body]
fn engine_accepts(pattern: &str) -> (accepted: bool)
    ensures
        accepted == pattern_compiles(pattern@),
{
    Regex::new(pattern).is_ok()
}

/// `regex::Regex::is_match`, on the expression compiled from `pattern`:
/// whether there is a match anywhere in `text`. The pattern must compile.
#[verifier::external_body]
fn engine_finds(pattern: &str, text: &str) -> (found: bool)
    requires
        pattern_compiles(pattern@),
    ensures
        found == pattern_finds(pattern@, text@),
{
    Regex::new(pattern).unwrap().is_match(text)
}

/// `regex::Regex::replace`, on the expression compiled from `pattern`, with
/// `template` as the replacement string: `text` with its leftmost match
/// replaced by the expanded template. In a template `$0` is the entire
/// match, so with that template the text comes back as it was. The pattern
/// must compile.
#[verifier::external_body]
fn engine_rewrite(pattern: &str, text: &str, template: &str) -> (rewritten: String)
    requires
        pattern_compiles(pattern@),
    ensures
        rewritten@ == pattern_rewrite(pattern@, text@, template@),
        template@ == whole_match_template() ==> rewritten@ == text@,
{
    Regex::new(pattern).unwrap().replace(text, template).into_owned()
}

/// Whether a name counts as matched by the match text: the text compiles and
/// the compiled pattern finds a match in the name.
pub open spec fn name_matches(match_text: Seq<char>, name: Seq<char>) -> bool {
    pattern_compiles(match_text) && pattern_finds(match_text, name)
}

/// The name an entry would get: the rewritten name where the entry matches
/// and the replacement template is not empty, else the name itself.
pub open spec fn rendered_name(
    match_text: Seq<char>,
    replace_text: Seq<char>,
    name: Seq<char>,
) -> Seq<char> {
    if name_matches(match_text, name) && replace_text.len() > 0 {
        pattern_rewrite(match_text, name, replace_text)
    } else {
        name
    }
}

/// A match pattern together with the engine's verdict on it.
#[derive(Debug)]
pub struct CompiledPattern {
    source: String,
    valid: bool,
}

impl CompiledPattern {
    #[verifier::type_invariant]
    spec fn consistent(self) -> bool {
        self.valid == pattern_compiles(self.source@)
    }

    /// The pattern text this value was compiled from.
    pub closed spec fn source(self) -> Seq<char> {
        self.source@
    }

    /// Compiles `match_text`. This never fails: a text that the engine
    /// rejects gives a pattern that matches nothing.
    pub fn compile(match_text: &str) -> (pattern: CompiledPattern)
        ensures
            pattern.source() == match_text@,
    {
        let valid = engine_accepts(match_text);
        CompiledPattern { source: match_text.to_owned(), valid }
    }

    /// Whether the engine accepted the pattern text.
    pub fn is_valid(&self) -> (valid: bool)
        ensures
            valid == pattern_compiles(self.source()),
    {
        proof {
            use_type_invariant(self);
        }
        self.valid
    }

    /// Whether `name` is matched by this pattern.
    pub fn is_match(&self, name: &str) -> (matched: bool)
        ensures
            matched == name_matches(self.source(), name@),
    {
        proof {
            use_type_invariant(self);
        }
        if self.valid {
            engine_finds(self.source.as_str(), name)
        } else {
            false
        }
    }

    /// The name that `name` would be renamed to under the template
    /// `replace_text`: `name` itself where it is not matched or the template
    /// is empty.
    pub fn render(&self, name: &str, replace_text: &str) -> (rendered: String)
        ensures
            rendered@ == rendered_name(self.source(), replace_text@, name@),
            replace_text@ == whole_match_template() ==> rendered@ == name@,
    {
        if replace_text.is_empty() {
            name.to_owned()
        } else {
            let matched = self.is_match(name);
            self.render_tested(name, replace_text, matched)
        }
    }

    /// As `render`, for a caller that has already tested `name` against the
    /// pattern and passes what the test gave.
    pub(crate) fn render_tested(&self, name: &str, replace_text: &str, matched: bool) -> (rendered:
        String)
        requires
            matched == name_matches(self.source(), name@),
        ensures
            rendered@ == rendered_name(self.source(), replace_text@, name@),
            replace_text@ == whole_match_template() ==> rendered@ == name@,
    {
        proof {
            use_type_invariant(self);
        }
        if matched && !replace_text.is_empty() {
            engine_rewrite(self.source.as_str(), name, replace_text)
        } else {
            name.to_owned()
        }
    }
}

/// A pattern that does not compile matches no name and renders every name
/// as itself, whatever the template.
pub proof fn lemma_invalid_pattern_changes_nothing(
    match_text: Seq<char>,
    replace_text: Seq<char>,
    name: Seq<char>,
)
    requires
        !pattern_compiles(match_text),
    ensures
        !name_matches(match_text, name),
        rendered_name(match_text, replace_text, name) == name,
{
}

/// With an empty template every name renders as itself.
pub proof fn lemma_empty_template_changes_nothing(match_text: Seq<char>, name: Seq<char>)
    ensures
        rendered_name(match_text, Seq::<char>::empty(), name) == name,
{
}

} // verus!
