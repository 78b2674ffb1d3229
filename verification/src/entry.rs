//! The entries of a directory, as the listing holds them.

use vstd::prelude::*;

verus! {

/// One direct child of the directory.
#[derive(Debug)]
pub struct Entry {
    /// `true` for a file, `false` for a directory.
    pub is_file: bool,
    /// The name of the child, without any directory part.
    pub name: String,
}

/// What an `Entry` is, mathematically: its kind and the characters of its name.
pub struct EntryView {
    pub is_file: bool,
    pub name: Seq<char>,
}

impl View for Entry {
    type V = EntryView;

    open spec fn view(&self) -> EntryView {
        EntryView { is_file: self.is_file, name: self.name@ }
    }
}

impl Clone for Entry {
    fn clone(&self) -> (copy: Self)
        ensures
            copy == *self,
    {
        Entry { is_file: self.is_file, name: self.name.clone() }
    }
}

impl Entry {
    /// An entry with the given kind and name.
    pub fn new(is_file: bool, name: &str) -> (entry: Entry)
        ensures
            entry@ == (EntryView { is_file, name: name@ }),
    {
        Entry { is_file, name: name.to_owned() }
    }
}

/// The views of a sequence of entries, in the same order.
pub open spec fn entry_views(entries: Seq<Entry>) -> Seq<EntryView> {
    Seq::new(entries.len(), |i: int| entries[i]@)
}

} // verus!
