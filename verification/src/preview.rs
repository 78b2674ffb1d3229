//! The preview: for each entry of the listing, whether the pattern matches
//! it and the name it would get.

use vstd::prelude::*;
use crate::entry::{Entry, EntryView, entry_views};
use crate::listing::Listing;
use crate::pattern::{
    CompiledPattern, name_matches, pattern_compiles, rendered_name, whole_match_template,
};

verus! {

/// The two texts that the user edits.
#[derive(Debug)]
pub struct PatternState {
    /// The regular expression that selects entries by name.
    pub match_text: String,
    /// The template from which the new names are made.
    pub replace_text: String,
}

/// The match text of a new session: it matches every name and captures the
/// whole of it as group 1.
pub open spec fn default_match_text() -> Seq<char> {
    "(.*)"@
}

/// The replacement template of a new session: what group 1 captured.
pub open spec fn default_replace_text() -> Seq<char> {
    "$1"@
}

impl Default for PatternState {
    fn default() -> (state: Self)
        ensures
            state.match_text@ == default_match_text(),
            state.replace_text@ == default_replace_text(),
    {
        PatternState { match_text: "(.*)".to_owned(), replace_text: "$1".to_owned() }
    }
}

/// One line of the preview.
#[derive(Debug)]
pub struct PreviewRow {
    /// The entry this row is about.
    pub entry: Entry,
    /// Whether the match pattern compiles and matches the entry's name.
    pub matched: bool,
    /// The name the entry would get; its own name where nothing changes.
    pub rendered_name: String,
}

/// What a `PreviewRow` is, mathematically.
pub struct RowView {
    pub entry: EntryView,
    pub matched: bool,
    pub rendered_name: Seq<char>,
}

impl RowView {
    /// Whether confirming the preview renames this row's entry: it is
    /// matched and its new name differs from the one it has.
    pub open spec fn renames(self) -> bool {
        self.matched && self.rendered_name != self.entry.name
    }
}

impl View for PreviewRow {
    type V = RowView;

    open spec fn view(&self) -> RowView {
        RowView {
            entry: self.entry@,
            matched: self.matched,
            rendered_name: self.rendered_name@,
        }
    }
}

impl Clone for PreviewRow {
    fn clone(&self) -> (copy: Self)
        ensures
            copy == *self,
    {
        PreviewRow {
            entry: self.entry.clone(),
            matched: self.matched,
            rendered_name: self.rendered_name.clone(),
        }
    }
}

impl PreviewRow {
    /// Whether confirming the preview renames this row's entry.
    pub fn renames(&self) -> (due: bool)
        ensures
            due == self@.renames(),
    {
        self.matched && !(self.rendered_name == self.entry.name)
    }
}

/// The views of a sequence of rows, in the same order.
pub open spec fn row_views(rows: Seq<PreviewRow>) -> Seq<RowView> {
    Seq::new(rows.len(), |i: int| rows[i]@)
}

/// The row that the preview shows for `entry`.
pub open spec fn row_for(
    entry: EntryView,
    match_text: Seq<char>,
    replace_text: Seq<char>,
) -> RowView {
    RowView {
        entry,
        matched: name_matches(match_text, entry.name),
        rendered_name: rendered_name(match_text, replace_text, entry.name),
    }
}

/// The preview of a listing: one row for each entry, in listing order.
pub open spec fn preview_of(
    listing: Seq<EntryView>,
    match_text: Seq<char>,
    replace_text: Seq<char>,
) -> Seq<RowView> {
    Seq::new(listing.len(), |i: int| row_for(listing[i], match_text, replace_text))
}

/// Derives the preview of `listing` under `pattern` and the replacement
/// template of `state`. The rows depend on nothing else: the same listing,
/// pattern text and template give the same rows.
pub fn derive(listing: &Listing, pattern: &CompiledPattern, state: &PatternState) -> (rows: Vec<
    PreviewRow,
>)
    ensures
        row_views(rows@) == preview_of(listing@, pattern.source(), state.replace_text@),
        state.replace_text@ == whole_match_template() ==> forall|i: int|
            0 <= i < rows.len() ==> (#[trigger] rows[i])@.rendered_name == listing@[i].name,
{
    let entries = listing.entries();
    let mut rows: Vec<PreviewRow> = Vec::new();
    let mut i: usize = 0;
    while i < entries.len()
        invariant
            entry_views(entries@) == listing@,
            i <= entries.len(),
            rows.len() == i,
            forall|j: int|
                0 <= j < i ==> (#[trigger] rows[j])@ == row_for(
                    listing@[j],
                    pattern.source(),
                    state.replace_text@,
                ),
            state.replace_text@ == whole_match_template() ==> forall|j: int|
                0 <= j < i ==> (#[trigger] rows[j])@.rendered_name == listing@[j].name,
        decreases entries.len() - i,
    {
        let entry = &entries[i];
        assert(entry@ == listing@[i as int]);
        let matched = pattern.is_match(entry.name.as_str());
        let rendered = pattern.render_tested(
            entry.name.as_str(),
            state.replace_text.as_str(),
            matched,
        );
        rows.push(PreviewRow { entry: entry.clone(), matched, rendered_name: rendered });
        i = i + 1;
    }
    assert(row_views(rows@) =~= preview_of(listing@, pattern.source(), state.replace_text@));
    rows
}

/// The preview has one row for each entry of the listing, and row `i` is
/// about entry `i`: order and length are those of the listing.
pub proof fn lemma_preview_follows_listing(
    listing: Seq<EntryView>,
    match_text: Seq<char>,
    replace_text: Seq<char>,
)
    ensures
        preview_of(listing, match_text, replace_text).len() == listing.len(),
        forall|i: int|
            0 <= i < listing.len() ==> (#[trigger] preview_of(
                listing,
                match_text,
                replace_text,
            )[i]).entry == listing[i],
{
}

/// Under a match text that does not compile no row is matched and every row
/// shows the entry's own name.
pub proof fn lemma_invalid_pattern_preview(
    listing: Seq<EntryView>,
    match_text: Seq<char>,
    replace_text: Seq<char>,
)
    requires
        !pattern_compiles(match_text),
    ensures
        forall|i: int|
            0 <= i < listing.len() ==> {
                let row = #[trigger] preview_of(listing, match_text, replace_text)[i];
                !row.matched && row.rendered_name == listing[i].name && !row.renames()
            },
{
}

/// Under an empty replacement template no row is due for a rename,
/// whatever the match text.
pub proof fn lemma_empty_template_preview(listing: Seq<EntryView>, match_text: Seq<char>)
    ensures
        forall|i: int|
            0 <= i < listing.len() ==> !(#[trigger] preview_of(
                listing,
                match_text,
                Seq::<char>::empty(),
            )[i]).renames(),
{
}

} // verus!
