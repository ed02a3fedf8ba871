//! The progress frame of one datagram.

use vstd::prelude::*;
use vstd::slice::slice_subrange;
use vstd::utf8::{decode_utf8, valid_utf8};
use crate::decode::{decode_lossy, lossy_text};
use crate::lines::{any_end_marker, filtered_text, has_end_marker, is_end_marker, kept_lines};
use crate::scan::{end_marker, join, lines_view, recognized, split, text_chars};

verus! {

/// The size at which datagrams are cut unless another is chosen, in bytes.
///
/// What a sender puts beyond this size is lost without notice.
pub const MAX_DATAGRAM_SIZE: usize = 512;

/// What one datagram yields: its recognized lines, joined by line feeds,
/// and whether any of its lines was an end marker.
#[derive(Debug, Clone, PartialEq, Eq)]
pub struct ProgressFrame {
    pub data: String,
    pub end: bool,
}

/// A frame as mathematics.
pub struct FrameView {
    pub data: Seq<char>,
    pub end: bool,
}

impl View for ProgressFrame {
    type V = FrameView;

    open spec fn view(&self) -> FrameView {
        FrameView { data: self.data@, end: self.end }
    }
}

/// The frame of the progress text `text`.
pub open spec fn frame_of_text(text: Seq<char>) -> FrameView {
    FrameView { data: filtered_text(text), end: has_end_marker(text) }
}

/// The frame of the datagram `bytes`, decoded lossily.
pub open spec fn frame_of_bytes(bytes: Seq<u8>) -> FrameView {
    frame_of_text(lossy_text(bytes))
}

/// The first `limit` bytes of `bytes`, or all of them if there are fewer.
pub open spec fn clipped(bytes: Seq<u8>, limit: nat) -> Seq<u8> {
    if bytes.len() <= limit {
        bytes
    } else {
        bytes.take(limit as int)
    }
}

/// Filters a decoded progress text.
///
/// Every line is tested for the end marker, kept or not; the lines that
/// start with a progress key are kept in their order.
pub fn parse_text(text: &str) -> (frame: ProgressFrame)
    ensures
        frame@ == frame_of_text(text@),
{
    let chars = text_chars(text);
    let lines = split(&chars);
    let ghost all = lines_view(lines@);
    let mut kept: Vec<Vec<char>> = Vec::new();
    let mut end = false;
    let mut k: usize = 0;
    assert(lines_view(kept@) =~= kept_lines(all.take(0)));
    while k < lines.len()
        invariant
            k <= lines.len(),
            all == lines_view(lines@),
            lines_view(kept@) == kept_lines(all.take(k as int)),
            end == any_end_marker(all.take(k as int)),
        decreases lines.len() - k,
    {
        let ghost done = all.take(k as int);
        let ghost next = all.take(k + 1);
        let line = &lines[k];
        assert(next.drop_last() =~= done);
        assert(next.last() == line@);
        let marked = end_marker(line);
        proof {
            if marked {
                assert(is_end_marker(next[k as int]));
            }
            if end {
                let w = choose|w: int| 0 <= w < done.len() && is_end_marker(#[trigger] done[w]);
                assert(is_end_marker(next[w]));
            }
            if any_end_marker(next) {
                let w = choose|w: int| 0 <= w < next.len() && is_end_marker(#[trigger] next[w]);
                if w < k {
                    assert(is_end_marker(done[w]));
                }
            }
        }
        end = end || marked;
        if recognized(line) {
            kept.push(line.clone());
            assert(lines_view(kept@) =~= kept_lines(done).push(line@));
        }
        proof {
            reveal(Seq::filter);
        }
        k += 1;
    }
    assert(all.take(k as int) =~= all);
    ProgressFrame { data: join(&kept), end }
}

/// Parses one datagram: decodes it lossily, then filters the text.
///
/// There is no input on which this fails.
pub fn parse(raw: &[u8]) -> (frame: ProgressFrame)
    ensures
        frame@ == frame_of_bytes(raw@),
        valid_utf8(raw@) ==> frame@ == frame_of_text(decode_utf8(raw@)),
{
    let text = decode_lossy(raw);
    parse_text(text.as_str())
}

/// The first `limit` bytes of `raw`, or all of `raw` where it has no more.
pub fn clip(raw: &[u8], limit: usize) -> (head: &[u8])
    ensures
        head@ == clipped(raw@, limit as nat),
{
    if raw.len() <= limit {
        raw
    } else {
        slice_subrange(raw, 0, limit)
    }
}

/// Parses what fits of a datagram into a buffer of `limit` bytes: the
/// datagram is cut at `limit` and the rest is parsed as it stands.
pub fn parse_bounded(raw: &[u8], limit: usize) -> (frame: ProgressFrame)
    ensures
        frame@ == frame_of_bytes(clipped(raw@, limit as nat)),
{
    parse(clip(raw, limit))
}

} // verus!
