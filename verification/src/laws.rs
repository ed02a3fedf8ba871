//! What holds of filtering and of the loop's logic, proved once for all
//! inputs.

use vstd::prelude::*;
use crate::frame::{clipped, frame_of_bytes, frame_of_text, FrameView};
use crate::ingest::{transition, ActionView, EventView, IngestionView, Phase};
use crate::lines::{
    filtered_text, is_end_marker, is_recognized, is_single_line, kept_lines, kept_positions,
    lemma_split_join, lemma_split_single_lines, split_lines,
};

verus! {

/// The kept lines are the recognized lines, each taken from its own place,
/// and the places ascend: nothing is reordered, doubled or dropped.
pub proof fn law_kept_in_order(lines: Seq<Seq<char>>)
    ensures
        kept_positions(lines).len() == kept_lines(lines).len(),
        forall|k: int|
            0 <= k < kept_lines(lines).len() ==> {
                let at = #[trigger] kept_positions(lines)[k];
                &&& 0 <= at < lines.len()
                &&& is_recognized(lines[at])
                &&& kept_lines(lines)[k] == lines[at]
            },
        forall|a: int, b: int|
            0 <= a < b < kept_positions(lines).len() ==> kept_positions(lines)[a]
                < kept_positions(lines)[b],
        forall|i: int|
            0 <= i < lines.len() && is_recognized(lines[i]) ==> kept_positions(lines).contains(i),
    decreases lines.len(),
{
    reveal(Seq::filter);
    if lines.len() > 0 {
        let front = lines.drop_last();
        law_kept_in_order(front);
        let places = kept_positions(lines);
        let before = kept_positions(front);
        assert forall|i: int| 0 <= i < lines.len() && is_recognized(lines[i]) implies places.contains(
            i,
        ) by {
            if i < front.len() {
                assert(front[i] == lines[i]);
                assert(before.contains(i));
                let k = choose|k: int| 0 <= k < before.len() && before[k] == i;
                assert(places[k] == i);
            } else {
                assert(places[places.len() - 1] == i);
            }
        }
        assert forall|k: int| 0 <= k < kept_lines(lines).len() implies {
            let at = #[trigger] places[k];
            &&& 0 <= at < lines.len()
            &&& is_recognized(lines[at])
            &&& kept_lines(lines)[k] == lines[at]
        } by {
            if k < before.len() {
                assert(places[k] == before[k]);
                assert(front[before[k]] == lines[before[k]]);
            }
        }
    }
}

/// A line is among the kept lines exactly when it is among the lines and
/// starts with a progress key, wherever in the text it stands.
pub proof fn law_kept_iff_recognized(lines: Seq<Seq<char>>, line: Seq<char>)
    ensures
        kept_lines(lines).contains(line) <==> lines.contains(line) && is_recognized(line),
{
    law_kept_in_order(lines);
    let kept = kept_lines(lines);
    let places = kept_positions(lines);
    if kept.contains(line) {
        let k = choose|k: int| 0 <= k < kept.len() && kept[k] == line;
        assert(lines[places[k]] == line);
    }
    if lines.contains(line) && is_recognized(line) {
        let i = choose|i: int| 0 <= i < lines.len() && lines[i] == line;
        assert(places.contains(i));
        let k = choose|k: int| 0 <= k < places.len() && places[k] == i;
        assert(kept[k] == line);
    }
}

/// Reading the filtered text line by line gives the recognized lines of
/// the text back, in their order. Where no line is recognized the
/// filtered text is empty.
pub proof fn law_filtered_lines(text: Seq<char>)
    ensures
        kept_lines(split_lines(text)).len() > 0 ==> split_lines(filtered_text(text)) == kept_lines(
            split_lines(text),
        ),
        kept_lines(split_lines(text)).len() == 0 ==> filtered_text(text) == Seq::<char>::empty(),
{
    let lines = split_lines(text);
    let kept = kept_lines(lines);
    if kept.len() > 0 {
        lemma_split_single_lines(text);
        law_kept_in_order(lines);
        assert forall|k: int| 0 <= k < kept.len() implies is_single_line(#[trigger] kept[k]) by {
            assert(kept[k] == lines[kept_positions(lines)[k]]);
        }
        lemma_split_join(kept);
    }
}

/// Filtering what was filtered changes nothing.
pub proof fn law_filter_idempotent(text: Seq<char>)
    ensures
        filtered_text(filtered_text(text)) == filtered_text(text),
{
    reveal(Seq::filter);
    let kept = kept_lines(split_lines(text));
    let once = filtered_text(text);
    law_filtered_lines(text);
    if kept.len() > 0 {
        law_keep_kept(split_lines(text));
    } else {
        let empty = Seq::<char>::empty();
        assert(split_lines(once) =~= seq![empty]);
        proof_empty_not_recognized();
        let single = seq![empty];
        let none = Seq::<Seq<char>>::empty();
        assert(single.drop_last() =~= none);
        assert(single.last() == empty);
        assert(kept_lines(none) =~= none);
        assert(kept_lines(single) =~= none);
    }
}

/// The empty line starts with no progress key.
proof fn proof_empty_not_recognized()
    ensures
        !is_recognized(Seq::<char>::empty()),
{
    reveal_strlit("frame=");
    reveal_strlit("total_size=");
    reveal_strlit("out_time_ms=");
    reveal_strlit("dup_frames=");
    reveal_strlit("drop_frames=");
}

/// Keeping the recognized lines of lines that are all recognized keeps
/// them all.
proof fn law_keep_kept(lines: Seq<Seq<char>>)
    ensures
        kept_lines(kept_lines(lines)) == kept_lines(lines),
    decreases lines.len(),
{
    reveal(Seq::filter);
    if lines.len() > 0 {
        law_keep_kept(lines.drop_last());
        let before = kept_lines(lines.drop_last());
        if is_recognized(lines.last()) {
            let now = before.push(lines.last());
            assert(now.drop_last() =~= before);
        }
    }
}

/// The end flag is raised exactly when some line of the text, kept or
/// not, ends with `=end`.
pub proof fn law_end_flag(text: Seq<char>)
    ensures
        frame_of_text(text).end <==> exists|k: int|
            0 <= k < split_lines(text).len() && is_end_marker(#[trigger] split_lines(text)[k]),
{
}

/// Two frames made of the same datagram are the same frame: the result
/// depends on the bytes and on nothing else.
pub proof fn law_parse_deterministic(bytes: Seq<u8>, first: FrameView, second: FrameView)
    requires
        first == frame_of_bytes(bytes),
        second == frame_of_bytes(bytes),
    ensures
        first == second,
{
}

/// A datagram longer than the limit counts up to the limit: what lies
/// beyond has no part in the frame.
pub proof fn law_cut_at_limit(bytes: Seq<u8>, other: Seq<u8>, limit: nat)
    requires
        bytes.len() >= limit,
        other.len() >= limit,
        bytes.take(limit as int) == other.take(limit as int),
    ensures
        clipped(bytes, limit).len() == limit,
        clipped(bytes, limit) == bytes.take(limit as int),
        frame_of_bytes(clipped(bytes, limit)) == frame_of_bytes(clipped(other, limit)),
{
    assert(bytes.take(bytes.len() as int) =~= bytes);
    assert(other.take(other.len() as int) =~= other);
}

/// A datagram within the limit is parsed whole.
pub proof fn law_within_limit(bytes: Seq<u8>, limit: nat)
    requires
        bytes.len() <= limit,
    ensures
        clipped(bytes, limit) == bytes,
{
}

/// A failed publication never ends the loop: it goes on running and
/// waits for the next datagram.
pub proof fn law_emit_failure_is_survived(state: IngestionView)
    requires
        state.phase == Phase::Running,
    ensures
        transition(state, EventView::EmitFailed) == (state, ActionView::LogAndReceive),
{
}

/// Nothing leads out of the halted phase, and nothing is done in it.
pub proof fn law_halted_is_final(state: IngestionView, event: EventView)
    requires
        state.phase == Phase::Halted,
    ensures
        transition(state, event) == (state, ActionView::Ignore),
{
}

/// The end flag is not remembered: the frame of a datagram depends on
/// that datagram and the limit alone, whatever was received before.
pub proof fn law_end_not_sticky(state: IngestionView, bytes: Seq<u8>)
    requires
        state.phase == Phase::Running,
    ensures
        transition(state, EventView::Datagram(bytes)) == (
            state,
            ActionView::Emit(frame_of_bytes(clipped(bytes, state.limit))),
        ),
{
}

/// The limit never changes, and the only way into the running phase is a
/// successful bind from the idle phase.
pub proof fn law_phases(state: IngestionView, event: EventView)
    ensures
        transition(state, event).0.limit == state.limit,
        transition(state, event).0.phase == Phase::Running ==> state.phase == Phase::Running || (
            state.phase == Phase::Idle && event == EventView::Bound),
        transition(state, event).0.phase == Phase::Idle ==> state.phase == Phase::Idle,
{
}

} // verus!
