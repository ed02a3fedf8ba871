//! The line structure of a progress text, as mathematics over `Seq<char>`.

use vstd::prelude::*;

verus! {

/// The character that separates two lines.
pub open spec fn line_feed() -> char {
    '\n'
}

/// The lines of `text`: the pieces between its line feeds, in order.
///
/// A text with `n` line feeds has `n + 1` lines; the empty text has one
/// empty line. Carriage returns stay in the line they stand in.
pub open spec fn split_lines(text: Seq<char>) -> Seq<Seq<char>>
    decreases text.len(),
{
    if text.len() == 0 {
        seq![Seq::<char>::empty()]
    } else {
        let before = split_lines(text.drop_last());
        if text.last() == line_feed() {
            before.push(Seq::<char>::empty())
        } else {
            before.drop_last().push(before.last().push(text.last()))
        }
    }
}

/// `lines` put together with one line feed between neighbours and none at
/// the end. No lines give the empty text.
pub open spec fn join_lines(lines: Seq<Seq<char>>) -> Seq<char>
    decreases lines.len(),
{
    if lines.len() == 0 {
        Seq::<char>::empty()
    } else if lines.len() == 1 {
        lines[0]
    } else {
        join_lines(lines.drop_last()).push(line_feed()) + lines.last()
    }
}

/// True when `line` holds no line feed.
pub open spec fn is_single_line(line: Seq<char>) -> bool {
    forall|i: int| 0 <= i < line.len() ==> line[i] != line_feed()
}

/// True when each of `lines` holds no line feed.
pub open spec fn all_single_lines(lines: Seq<Seq<char>>) -> bool {
    forall|k: int| 0 <= k < lines.len() ==> is_single_line(#[trigger] lines[k])
}

/// A text always has at least one line.
pub proof fn lemma_split_nonempty(text: Seq<char>)
    ensures
        split_lines(text).len() >= 1,
    decreases text.len(),
{
    if text.len() > 0 {
        lemma_split_nonempty(text.drop_last());
    }
}

/// No line of a text holds a line feed.
pub proof fn lemma_split_single_lines(text: Seq<char>)
    ensures
        all_single_lines(split_lines(text)),
    decreases text.len(),
{
    if text.len() > 0 {
        let before = split_lines(text.drop_last());
        lemma_split_nonempty(text.drop_last());
        lemma_split_single_lines(text.drop_last());
        let now = split_lines(text);
        assert forall|k: int| 0 <= k < now.len() implies is_single_line(#[trigger] now[k]) by {
            if k < now.len() - 1 {
                assert(now[k] == before[k]);
            } else if text.last() != line_feed() {
                assert(is_single_line(before[before.len() - 1]));
            }
        }
    }
}

/// Joining the lines of a text gives the text back.
pub proof fn lemma_join_split(text: Seq<char>)
    ensures
        join_lines(split_lines(text)) == text,
    decreases text.len(),
{
    if text.len() > 0 {
        let shorter = text.drop_last();
        let before = split_lines(shorter);
        lemma_split_nonempty(shorter);
        lemma_join_split(shorter);
        let now = split_lines(text);
        if text.last() == line_feed() {
            assert(now.drop_last() =~= before);
            assert(join_lines(now) =~= shorter.push(line_feed()));
        } else {
            let grown = before.last().push(text.last());
            if before.len() == 1 {
                assert(join_lines(before) == before[0]);
                assert(join_lines(now) =~= shorter.push(text.last()));
            } else {
                assert(now.drop_last() =~= before.drop_last());
                assert(join_lines(before) == join_lines(before.drop_last()).push(line_feed())
                    + before.last());
                assert(join_lines(now) =~= join_lines(before).push(text.last()));
            }
        }
        assert(shorter.push(text.last()) =~= text);
    }
}

/// Appending text without a line feed lengthens the last line and leaves
/// the others as they were.
pub proof fn lemma_split_append_line(text: Seq<char>, tail: Seq<char>)
    requires
        is_single_line(tail),
    ensures
        split_lines(text).len() >= 1,
        split_lines(text + tail) == split_lines(text).drop_last().push(
            split_lines(text).last() + tail,
        ),
    decreases tail.len(),
{
    lemma_split_nonempty(text);
    let base = split_lines(text);
    if tail.len() == 0 {
        assert(text + tail =~= text);
        assert(base.last() + tail =~= base.last());
        assert(base.drop_last().push(base.last()) =~= base);
    } else {
        let shorter = tail.drop_last();
        lemma_split_append_line(text, shorter);
        assert((text + tail).drop_last() =~= text + shorter);
        assert((text + tail).last() == tail.last());
        let before = split_lines(text + shorter);
        assert(before.drop_last() =~= base.drop_last());
        assert(before.last().push(tail.last()) =~= base.last() + tail);
    }
}

/// Splitting what was joined from lines gives the lines back, provided
/// there is at least one line and none of them holds a line feed.
pub proof fn lemma_split_join(lines: Seq<Seq<char>>)
    requires
        lines.len() >= 1,
        all_single_lines(lines),
    ensures
        split_lines(join_lines(lines)) == lines,
    decreases lines.len(),
{
    let empty = Seq::<char>::empty();
    if lines.len() == 1 {
        assert(split_lines(empty) =~= seq![empty]);
        lemma_split_append_line(empty, lines[0]);
        assert(empty + lines[0] =~= lines[0]);
        assert(split_lines(lines[0]) =~= lines);
    } else {
        let front = lines.drop_last();
        assert(all_single_lines(front)) by {
            assert forall|k: int| 0 <= k < front.len() implies is_single_line(
                #[trigger] front[k],
            ) by {
                assert(front[k] == lines[k]);
            }
        }
        lemma_split_join(front);
        let head = join_lines(front).push(line_feed());
        assert(head.drop_last() =~= join_lines(front));
        assert(split_lines(head) == front.push(empty));
        assert(is_single_line(lines.last()));
        lemma_split_append_line(head, lines.last());
        assert(empty + lines.last() =~= lines.last());
        assert(front.push(empty).drop_last().push(lines.last()) =~= lines);
    }
}

/// True when `line` starts with one of the five progress keys and `=`.
///
/// The test is on the line as it stands: no trimming, no change of case.
pub open spec fn is_recognized(line: Seq<char>) -> bool {
    ||| "frame="@.is_prefix_of(line)
    ||| "total_size="@.is_prefix_of(line)
    ||| "out_time_ms="@.is_prefix_of(line)
    ||| "dup_frames="@.is_prefix_of(line)
    ||| "drop_frames="@.is_prefix_of(line)
}

/// True when `line` ends with `=end`, the encoder's last word.
pub open spec fn is_end_marker(line: Seq<char>) -> bool {
    "=end"@.is_suffix_of(line)
}

/// The recognized lines among `lines`, in the order they stand in.
pub open spec fn kept_lines(lines: Seq<Seq<char>>) -> Seq<Seq<char>> {
    lines.filter(|line: Seq<char>| is_recognized(line))
}

/// True when one of `lines`, recognized or not, is an end marker.
pub open spec fn any_end_marker(lines: Seq<Seq<char>>) -> bool {
    exists|k: int| 0 <= k < lines.len() && is_end_marker(#[trigger] lines[k])
}

/// The text that a frame carries for the progress text `text`: its
/// recognized lines, joined again.
pub open spec fn filtered_text(text: Seq<char>) -> Seq<char> {
    join_lines(kept_lines(split_lines(text)))
}

/// The end flag that a frame carries for the progress text `text`.
pub open spec fn has_end_marker(text: Seq<char>) -> bool {
    any_end_marker(split_lines(text))
}

/// The places in `lines` at which the recognized lines stand, ascending.
pub open spec fn kept_positions(lines: Seq<Seq<char>>) -> Seq<int>
    decreases lines.len(),
{
    if lines.len() == 0 {
        Seq::<int>::empty()
    } else {
        let before = kept_positions(lines.drop_last());
        if is_recognized(lines.last()) {
            before.push(lines.len() - 1)
        } else {
            before
        }
    }
}

} // verus!
