//! The listing: the entries of one directory, in display order.

use vstd::prelude::*;
use vstd::seq_lib::seq_to_set_is_finite;
use vstd::set_lib::{lemma_int_range, lemma_subset_equality, set_int_range};
use crate::entry::{Entry, EntryView, entry_views};
use crate::ordering::{
    key_le, key_of, lemma_lex_le_total, lemma_lex_le_transitive, lex_le, sort_key,
};
use crate::text::{joined, texts};

verus! {

/// Whether entry `a` may stand before entry `b` in a listing.
pub open spec fn precedes(a: EntryView, b: EntryView) -> bool {
    lex_le(sort_key(a.name), sort_key(b.name))
}

/// Whether no entry of `s` stands before one that should precede it.
pub open spec fn is_ordered(s: Seq<EntryView>) -> bool {
    forall|i: int, j: int| 0 <= i < j < s.len() ==> precedes(#[trigger] s[i], #[trigger] s[j])
}

/// `out` arranges `input` in order, item `i` of `out` being item `origin[i]`
/// of `input`, and items with equal keys standing as they stood in `input`.
pub open spec fn arranges(input: Seq<EntryView>, out: Seq<EntryView>, origin: Seq<int>) -> bool {
    &&& out.len() == input.len()
    &&& origin.len() == input.len()
    &&& forall|i: int|
        0 <= i < out.len() ==> 0 <= #[trigger] origin[i] < input.len() && out[i] == input[origin[i]]
    &&& forall|i: int, j: int|
        0 <= i < j < out.len() ==> #[trigger] origin[i] != #[trigger] origin[j]
    &&& forall|i: int, j: int|
        0 <= i < j < out.len() ==> precedes(#[trigger] out[i], #[trigger] out[j]) && (precedes(
            out[j],
            out[i],
        ) ==> origin[i] < origin[j])
}

/// Whether `out` is `input` sorted by key, ties keeping their input order.
pub open spec fn is_stable_sort_of(input: Seq<EntryView>, out: Seq<EntryView>) -> bool {
    exists|origin: Seq<int>| arranges(input, out, origin)
}

/// Every position of the input is the origin of some item of an arrangement.
proof fn lemma_origins_cover(
    input: Seq<EntryView>,
    out: Seq<EntryView>,
    origin: Seq<int>,
    position: int,
)
    requires
        arranges(input, out, origin),
        0 <= position < input.len(),
    ensures
        exists|k: int| 0 <= k < origin.len() && origin[k] == position,
{
    let n = input.len() as int;
    assert(origin.no_duplicates()) by {
        assert forall|i: int, j: int|
            0 <= i < origin.len() && 0 <= j < origin.len() && i != j implies origin[i]
            != origin[j] by {
            if i < j {
                assert(origin[i] != origin[j]);
            } else {
                assert(origin[j] != origin[i]);
            }
        }
    }
    origin.unique_seq_to_set();
    lemma_int_range(0, n);
    assert(origin.to_set().subset_of(set_int_range(0, n))) by {
        assert forall|x: int| origin.to_set().contains(x) implies set_int_range(0, n).contains(
            x,
        ) by {
            let k = choose|k: int| 0 <= k < origin.len() && origin[k] == x;
            assert(0 <= origin[k] < n);
        }
    }
    seq_to_set_is_finite(origin);
    lemma_subset_equality(origin.to_set(), set_int_range(0, n));
    assert(set_int_range(0, n).contains(position));
    assert(origin.to_set().contains(position));
    assert(origin.contains(position));
}

/// Two arrangements of one input take their first `upto` items from the
/// same positions.
proof fn lemma_origins_agree(
    input: Seq<EntryView>,
    a: Seq<EntryView>,
    origin_a: Seq<int>,
    b: Seq<EntryView>,
    origin_b: Seq<int>,
    upto: int,
)
    requires
        arranges(input, a, origin_a),
        arranges(input, b, origin_b),
        0 <= upto <= input.len(),
    ensures
        forall|k: int| 0 <= k < upto ==> origin_a[k] == origin_b[k],
    decreases upto,
{
    if upto > 0 {
        lemma_origins_agree(input, a, origin_a, b, origin_b, upto - 1);
        let i = upto - 1;
        let x = origin_a[i];
        let y = origin_b[i];
        if x != y {
            lemma_origins_cover(input, b, origin_b, x);
            let j = choose|j: int| 0 <= j < origin_b.len() && origin_b[j] == x;
            lemma_origins_cover(input, a, origin_a, y);
            let k = choose|k: int| 0 <= k < origin_a.len() && origin_a[k] == y;
            if j < i {
                assert(origin_a[j] == origin_b[j]);
                assert(origin_a[j] != origin_a[i]);
            }
            if k < i {
                assert(origin_b[k] == origin_a[k]);
                assert(origin_b[k] != origin_b[i]);
            }
            assert(i < j && i < k);
            assert(a[i] == input[x] && a[k] == input[y]);
            assert(b[i] == input[y] && b[j] == input[x]);
            assert(precedes(a[i], a[k]) && (precedes(a[k], a[i]) ==> origin_a[i] < origin_a[k]));
            assert(precedes(b[i], b[j]) && (precedes(b[j], b[i]) ==> origin_b[i] < origin_b[j]));
            assert(false);
        }
    }
}

/// There is one way only to sort an input: two sequences that are each the
/// input sorted by key, ties in input order, are the same sequence.
pub proof fn lemma_stable_sort_is_unique(
    input: Seq<EntryView>,
    a: Seq<EntryView>,
    b: Seq<EntryView>,
)
    requires
        is_stable_sort_of(input, a),
        is_stable_sort_of(input, b),
    ensures
        a == b,
{
    let origin_a = choose|origin: Seq<int>| arranges(input, a, origin);
    let origin_b = choose|origin: Seq<int>| arranges(input, b, origin);
    lemma_origins_agree(input, a, origin_a, b, origin_b, input.len() as int);
    assert forall|i: int| 0 <= i < a.len() implies a[i] == b[i] by {
        assert(origin_a[i] == origin_b[i]);
    }
    assert(a =~= b);
}

/// A sorted sequence is in order and has the length of its input.
pub proof fn lemma_stable_sort_is_ordered(input: Seq<EntryView>, out: Seq<EntryView>)
    requires
        is_stable_sort_of(input, out),
    ensures
        is_ordered(out),
        out.len() == input.len(),
{
    let origin = choose|origin: Seq<int>| arranges(input, out, origin);
    assert(arranges(input, out, origin));
}

/// Sorts entries by name, ignoring case; entries whose names differ only in
/// case keep the order in which they were given.
pub fn sort_entries(entries: Vec<Entry>) -> (sorted: Vec<Entry>)
    ensures
        is_stable_sort_of(entry_views(entries@), entry_views(sorted@)),
{
    let ghost input = entry_views(entries@);
    let mut out: Vec<Entry> = Vec::new();
    let mut keys: Vec<Vec<char>> = Vec::new();
    let ghost mut origin: Seq<int> = Seq::empty();
    for entry in it: entries
        invariant
            input == entry_views(it.seq()),
            out.len() == it.index(),
            keys.len() == it.index(),
            origin.len() == it.index(),
            forall|i: int| 0 <= i < out.len() ==> (#[trigger] keys[i])@ == sort_key(out[i]@.name),
            forall|i: int|
                0 <= i < out.len() ==> 0 <= #[trigger] origin[i] < it.index() && out[i]@
                    == input[origin[i]],
            forall|i: int, j: int|
                0 <= i < j < out.len() ==> #[trigger] origin[i] != #[trigger] origin[j],
            forall|i: int, j: int|
                0 <= i < j < out.len() ==> precedes(#[trigger] out[i]@, #[trigger] out[j]@) && (
                precedes(out[j]@, out[i]@) ==> origin[i] < origin[j]),
    {
        let key = key_of(entry.name.as_str());
        let mut p: usize = out.len();
        while p > 0 && !key_le(&keys[p - 1], &key)
            invariant
                p <= out.len(),
                keys.len() == out.len(),
                forall|j: int| p <= j < keys.len() ==> !lex_le((#[trigger] keys[j])@, key@),
            decreases p,
        {
            p = p - 1;
        }
        let ghost n = it.index() as int;
        let ghost old_out = out@;
        let ghost old_keys = keys@;
        let ghost old_origin = origin;
        out.insert(p, entry);
        keys.insert(p, key);
        proof {
            origin = origin.insert(p as int, n);
            old_out.insert_ensures(p as int, entry);
            old_keys.insert_ensures(p as int, key);
            old_origin.insert_ensures(p as int, n);
            assert forall|i: int, j: int| 0 <= i < j < out.len() implies precedes(
                #[trigger] out[i]@,
                #[trigger] out[j]@,
            ) && (precedes(out[j]@, out[i]@) ==> origin[i] < origin[j]) by {
                let i0 = if i < p { i } else { i - 1 };
                let j0 = if j < p { j } else { j - 1 };
                if i == p {
                    assert(out[j] == old_out[j0] && keys[j] == old_keys[j0]);
                    lemma_lex_le_total(key@, old_keys[j0]@);
                } else if j == p {
                    assert(out[i] == old_out[i0]);
                    assert(lex_le(old_keys[p - 1]@, key@));
                    if i0 < p - 1 {
                        assert(precedes(old_out[i0]@, old_out[p - 1]@));
                        lemma_lex_le_transitive(old_keys[i0]@, old_keys[p - 1]@, key@);
                    }
                } else {
                    assert(out[i] == old_out[i0] && out[j] == old_out[j0]);
                    assert(origin[i] == old_origin[i0] && origin[j] == old_origin[j0]);
                }
            }
        }
    }
    proof {
        assert(arranges(input, entry_views(out@), origin));
    }
    out
}

/// The entries of one directory in display order: by name, ignoring case.
/// The order is fixed when the listing is built.
#[derive(Debug)]
pub struct Listing {
    entries: Vec<Entry>,
}

impl View for Listing {
    type V = Seq<EntryView>;

    closed spec fn view(&self) -> Seq<EntryView> {
        entry_views(self.entries@)
    }
}

impl Listing {
    #[verifier::type_invariant]
    spec fn in_order(self) -> bool {
        is_ordered(entry_views(self.entries@))
    }

    /// The listing of the given entries, whatever order they come in.
    pub fn from_entries(entries: Vec<Entry>) -> (listing: Listing)
        ensures
            is_stable_sort_of(entry_views(entries@), listing@),
    {
        let sorted = sort_entries(entries);
        proof {
            lemma_stable_sort_is_ordered(entry_views(entries@), entry_views(sorted@));
        }
        Listing { entries: sorted }
    }

    /// The number of entries.
    pub fn len(&self) -> (n: usize)
        ensures
            n == self@.len(),
    {
        self.entries.len()
    }

    /// Whether the directory had no entries.
    pub fn is_empty(&self) -> (empty: bool)
        ensures
            empty == (self@.len() == 0),
    {
        self.entries.len() == 0
    }

    /// The entry at position `index`, if the listing is that long.
    pub fn get(&self, index: usize) -> (entry: Option<&Entry>)
        ensures
            match entry {
                Some(entry) => index < self@.len() && entry@ == self@[index as int],
                None => index >= self@.len(),
            },
    {
        if index < self.entries.len() {
            Some(&self.entries[index])
        } else {
            None
        }
    }

    /// All entries, in display order.
    pub fn entries(&self) -> (entries: &Vec<Entry>)
        ensures
            entry_views(entries@) == self@,
            is_ordered(self@),
    {
        proof {
            use_type_invariant(self);
        }
        &self.entries
    }
}

/// What reading one child of the directory gave.
#[derive(Debug)]
pub enum ScanItem {
    /// The child was read: its kind and name are known.
    Found(Entry),
    /// The directory did not yield the child; the text says why.
    EntryError(String),
    /// The child's metadata could not be read; the text says why.
    MetadataError(String),
}

/// What stands before the reason in the line for a child that the directory
/// did not yield.
pub open spec fn entry_error_prefix() -> Seq<char> {
    "ERROR: Could not read entry: "@
}

/// What stands before the reason in the line for a child whose metadata
/// could not be read.
pub open spec fn metadata_error_prefix() -> Seq<char> {
    "ERROR: Could not read entry metadata: "@
}

/// What stands before the reason in the line for a directory that could not
/// be read at all.
pub open spec fn directory_error_prefix() -> Seq<char> {
    "ERROR: Could not read directory: "@
}

/// The entries among the scanned items, in scan order.
pub open spec fn found_entries(scan: Seq<ScanItem>) -> Seq<EntryView>
    decreases scan.len(),
{
    if scan.len() == 0 {
        Seq::empty()
    } else {
        let before = found_entries(scan.drop_last());
        match scan.last() {
            ScanItem::Found(entry) => before.push(entry@),
            _ => before,
        }
    }
}

/// One error line for each scanned item that is not an entry, in scan order.
pub open spec fn scan_error_lines(scan: Seq<ScanItem>) -> Seq<Seq<char>>
    decreases scan.len(),
{
    if scan.len() == 0 {
        Seq::empty()
    } else {
        let before = scan_error_lines(scan.drop_last());
        match scan.last() {
            ScanItem::Found(_) => before,
            ScanItem::EntryError(reason) => before.push(entry_error_prefix() + reason@),
            ScanItem::MetadataError(reason) => before.push(metadata_error_prefix() + reason@),
        }
    }
}

/// A listing together with the error lines that building it produced.
#[derive(Debug)]
pub struct Loaded {
    /// The entries that could be read, in display order.
    pub listing: Listing,
    /// One line for each child that could not be read.
    pub error_lines: Vec<String>,
}

/// Why no listing could be built.
#[derive(Debug)]
pub struct LoadError {
    /// The line that reports the failure.
    pub line: String,
}

/// Builds the listing from what reading the directory gave. An unreadable
/// directory is an error. A child that could not be read is left out of the
/// listing and reported in a line of its own; the others are sorted.
pub fn load(read: Result<Vec<ScanItem>, String>) -> (result: Result<Loaded, LoadError>)
    ensures
        match read {
            Ok(scan) => result is Ok && is_stable_sort_of(
                found_entries(scan@),
                result->Ok_0.listing@,
            ) && texts(result->Ok_0.error_lines@) == scan_error_lines(scan@),
            Err(reason) => result is Err && result->Err_0.line@ == directory_error_prefix()
                + reason@,
        },
{
    match read {
        Err(reason) => Err(
            LoadError { line: joined("ERROR: Could not read directory: ", reason.as_str()) },
        ),
        Ok(scan) => {
            let mut found: Vec<Entry> = Vec::new();
            let mut error_lines: Vec<String> = Vec::new();
            for item in it: scan
                invariant
                    entry_views(found@) == found_entries(it.seq().take(it.index() as int)),
                    texts(error_lines@) == scan_error_lines(it.seq().take(it.index() as int)),
            {
                proof {
                    let n = it.index() as int;
                    assert(it.seq().take(n + 1).drop_last() =~= it.seq().take(n));
                    assert(it.seq().take(n + 1).last() == item);
                }
                let ghost old_found = found@;
                let ghost old_lines = error_lines@;
                match item {
                    ScanItem::Found(entry) => {
                        found.push(entry);
                        assert(entry_views(found@) =~= entry_views(old_found).push(entry@));
                    },
                    ScanItem::EntryError(reason) => {
                        let line = joined("ERROR: Could not read entry: ", reason.as_str());
                        error_lines.push(line);
                        assert(texts(error_lines@) =~= texts(old_lines).push(line@));
                    },
                    ScanItem::MetadataError(reason) => {
                        let line = joined(
                            "ERROR: Could not read entry metadata: ",
                            reason.as_str(),
                        );
                        error_lines.push(line);
                        assert(texts(error_lines@) =~= texts(old_lines).push(line@));
                    },
                }
            }
            assert(scan@.take(scan@.len() as int) =~= scan@);
            let listing = Listing::from_entries(found);
            Ok(Loaded { listing, error_lines })
        },
    }
}

} // verus!
