//! Lines of text: the messages that a session collects.

use vstd::prelude::*;
use vstd::string::StringExecFns;

verus! {

/// The contents of a sequence of strings, in the same order.
pub open spec fn texts(lines: Seq<String>) -> Seq<Seq<char>> {
    Seq::new(lines.len(), |i: int| lines[i]@)
}

/// `head` followed by `tail`.
pub(crate) fn joined(head: &str, tail: &str) -> (line: String)
    ensures
        line@ == head@ + tail@,
{
    let mut line = String::from_str(head);
    line.append(tail);
    line
}

/// A copy of `lines`.
pub(crate) fn copy_lines(lines: &Vec<String>) -> (copy: Vec<String>)
    ensures
        texts(copy@) == texts(lines@),
{
    let mut copy: Vec<String> = Vec::new();
    let mut i: usize = 0;
    while i < lines.len()
        invariant
            i <= lines.len(),
            copy.len() == i,
            forall|j: int| 0 <= j < i ==> (#[trigger] copy[j])@ == lines[j]@,
        decreases lines.len() - i,
    {
        copy.push(lines[i].clone());
        i = i + 1;
    }
    assert(texts(copy@) =~= texts(lines@));
    copy
}

/// The text that shows `lines` one below the other: each line, in order,
/// followed by a line feed.
pub open spec fn stacked(lines: Seq<Seq<char>>) -> Seq<char>
    decreases lines.len(),
{
    if lines.len() == 0 {
        Seq::empty()
    } else {
        stacked(lines.drop_last()) + lines.last() + "\n"@
    }
}

/// Writes `lines` one below the other into one text.
pub fn stack_lines(lines: &Vec<String>) -> (text: String)
    ensures
        text@ == stacked(texts(lines@)),
{
    let mut text = String::new();
    let mut i: usize = 0;
    while i < lines.len()
        invariant
            i <= lines.len(),
            text@ == stacked(texts(lines@).take(i as int)),
        decreases lines.len() - i,
    {
        proof {
            let upto = texts(lines@).take(i + 1);
            assert(upto.drop_last() =~= texts(lines@).take(i as int));
            assert(upto.last() == lines[i as int]@);
        }
        text.append(lines[i].as_str());
        text.append("\n");
        i = i + 1;
    }
    assert(texts(lines@).take(lines.len() as int) =~= texts(lines@));
    text
}

} // verus!
