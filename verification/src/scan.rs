//! Executable splitting, testing and joining of lines.
//!
//! A line is held as a `Vec<char>`; what a vector of lines stands for is
//! given by [`lines_view`].

use vstd::prelude::*;
use crate::lines::{is_end_marker, is_recognized, join_lines, split_lines};

verus! {

/// The lines that a vector of character vectors stands for.
pub open spec fn lines_view(lines: Seq<Vec<char>>) -> Seq<Seq<char>> {
    Seq::new(lines.len(), |k: int| lines[k]@)
}

/// Appends one character to a string.
///
/// Trusted: `String::push` of std, which puts the character at the end of
/// the string and leaves what was there unchanged.
#[verifier::external_body]
fn push_char(text: &mut String, c: char)
    ensures
        final(text)@ == old(text)@.push(c),
{
    text.push(c);
}

/// The characters of `text`, one by one.
pub fn text_chars(text: &str) -> (chars: Vec<char>)
    ensures
        chars@ == text@,
{
    let mut chars: Vec<char> = Vec::new();
    for c in it: text.chars()
        invariant
            chars@ == it.seq().take(it.index()),
    {
        chars.push(c);
    }
    chars
}

/// Tells whether `line` begins with `prefix`.
pub fn starts_with(line: &Vec<char>, prefix: &Vec<char>) -> (found: bool)
    ensures
        found == prefix@.is_prefix_of(line@),
{
    if prefix.len() > line.len() {
        return false;
    }
    let mut i: usize = 0;
    while i < prefix.len()
        invariant
            i <= prefix.len() <= line.len(),
            prefix@.take(i as int) =~= line@.take(i as int),
        decreases prefix.len() - i,
    {
        if prefix[i] != line[i] {
            assert(prefix@[i as int] != line@.subrange(0, prefix@.len() as int)[i as int]);
            return false;
        }
        assert(prefix@.take(i + 1) =~= prefix@.take(i as int).push(prefix@[i as int]));
        assert(line@.take(i + 1) =~= line@.take(i as int).push(line@[i as int]));
        i += 1;
    }
    assert(prefix@.take(i as int) =~= prefix@);
    true
}

/// Tells whether `line` finishes with `suffix`.
pub fn ends_with(line: &Vec<char>, suffix: &Vec<char>) -> (found: bool)
    ensures
        found == suffix@.is_suffix_of(line@),
{
    if suffix.len() > line.len() {
        return false;
    }
    let shift: usize = line.len() - suffix.len();
    let ghost tail = line@.subrange(shift as int, line@.len() as int);
    let mut i: usize = 0;
    while i < suffix.len()
        invariant
            i <= suffix.len() <= line.len(),
            shift == line.len() - suffix.len(),
            tail == line@.subrange(shift as int, line@.len() as int),
            suffix@.take(i as int) =~= tail.take(i as int),
        decreases suffix.len() - i,
    {
        if suffix[i] != line[shift + i] {
            assert(suffix@[i as int] != tail[i as int]);
            return false;
        }
        assert(suffix@.take(i + 1) =~= suffix@.take(i as int).push(suffix@[i as int]));
        assert(tail.take(i + 1) =~= tail.take(i as int).push(tail[i as int]));
        i += 1;
    }
    assert(suffix@.take(i as int) =~= suffix@);
    assert(tail.take(i as int) =~= tail);
    true
}

/// Tells whether `line` starts with one of the five progress keys.
pub fn recognized(line: &Vec<char>) -> (known: bool)
    ensures
        known == is_recognized(line@),
{
    starts_with(line, &text_chars("frame="))
        || starts_with(line, &text_chars("total_size="))
        || starts_with(line, &text_chars("out_time_ms="))
        || starts_with(line, &text_chars("dup_frames="))
        || starts_with(line, &text_chars("drop_frames="))
}

/// Tells whether `line` ends with `=end`.
pub fn end_marker(line: &Vec<char>) -> (marked: bool)
    ensures
        marked == is_end_marker(line@),
{
    ends_with(line, &text_chars("=end"))
}

/// Cuts `chars` at its line feeds.
pub fn split(chars: &Vec<char>) -> (lines: Vec<Vec<char>>)
    ensures
        lines_view(lines@) == split_lines(chars@),
{
    let mut lines: Vec<Vec<char>> = Vec::new();
    let mut current: Vec<char> = Vec::new();
    let mut i: usize = 0;
    assert(lines_view(lines@).push(current@) =~= split_lines(chars@.take(0)));
    while i < chars.len()
        invariant
            i <= chars.len(),
            lines_view(lines@).push(current@) == split_lines(chars@.take(i as int)),
        decreases chars.len() - i,
    {
        let c: char = chars[i];
        let ghost before = split_lines(chars@.take(i as int));
        let ghost grown = chars@.take(i + 1);
        assert(grown.drop_last() =~= chars@.take(i as int));
        assert(grown.last() == c);
        assert(before.last() == current@);
        assert(before.drop_last() =~= lines_view(lines@));
        if c == '\n' {
            lines.push(current);
            current = Vec::new();
            assert(lines_view(lines@) =~= before);
            assert(lines_view(lines@).push(current@) =~= split_lines(grown));
        } else {
            current.push(c);
            assert(lines_view(lines@).push(current@) =~= split_lines(grown));
        }
        i += 1;
    }
    assert(chars@.take(i as int) =~= chars@);
    proof {
        lines_view_push(lines@, current);
    }
    lines.push(current);
    lines
}

/// Pushing a line onto the vector pushes its view onto the view.
proof fn lines_view_push(lines: Seq<Vec<char>>, line: Vec<char>)
    ensures
        lines_view(lines.push(line)) == lines_view(lines).push(line@),
{
    assert(lines_view(lines.push(line)) =~= lines_view(lines).push(line@));
}

/// Puts `lines` together, with a line feed between neighbours.
pub fn join(lines: &Vec<Vec<char>>) -> (text: String)
    ensures
        text@ == join_lines(lines_view(lines@)),
{
    let mut text = String::new();
    let ghost all = lines_view(lines@);
    let mut k: usize = 0;
    while k < lines.len()
        invariant
            k <= lines.len(),
            all == lines_view(lines@),
            text@ == join_lines(all.take(k as int)),
        decreases lines.len() - k,
    {
        let ghost done = all.take(k as int);
        let ghost next = all.take(k + 1);
        assert(next.drop_last() =~= done);
        assert(next.last() == lines@[k as int]@);
        if k > 0 {
            push_char(&mut text, '\n');
        }
        let ghost head = text@;
        let line = &lines[k];
        let mut j: usize = 0;
        while j < line.len()
            invariant
                j <= line.len(),
                text@ == head + line@.take(j as int),
            decreases line.len() - j,
        {
            push_char(&mut text, line[j]);
            assert(line@.take(j + 1) =~= line@.take(j as int).push(line@[j as int]));
            j += 1;
        }
        assert(line@.take(j as int) =~= line@);
        assert(text@ =~= join_lines(next)) by {
            if k == 0 {
                assert(next =~= seq![line@]);
                assert(head =~= Seq::<char>::empty());
            }
        }
        k += 1;
    }
    assert(all.take(k as int) =~= all);
    text
}

} // verus!
