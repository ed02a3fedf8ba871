use ffmpeg_stats::frame::{clip, parse, parse_bounded, parse_text, ProgressFrame, MAX_DATAGRAM_SIZE};
use ffmpeg_stats::scan::{end_marker, ends_with, join, recognized, split, starts_with, text_chars};

fn chars(text: &str) -> Vec<char> {
    text.chars().collect()
}

fn frame(data: &str, end: bool) -> ProgressFrame {
    ProgressFrame { data: data.to_string(), end }
}

#[test]
fn keeps_progress_lines_and_drops_the_rest() {
    let got = parse(b"frame=120\nfps=30\nout_time_ms=4000000\nprogress=continue");
    assert_eq!(got, frame("frame=120\nout_time_ms=4000000", false));
}

#[test]
fn end_line_raises_the_flag_and_is_dropped() {
    let got = parse(b"frame=500\ntotal_size=1048576\nprogress=end");
    assert_eq!(got, frame("frame=500\ntotal_size=1048576", true));
}

#[test]
fn end_marker_counts_among_unrecognized_lines() {
    let got = parse(b"progress=end\nfoo=bar");
    assert_eq!(got, frame("", true));
}

#[test]
fn empty_datagram_gives_empty_frame() {
    assert_eq!(parse(b""), frame("", false));
    assert_eq!(parse_text(""), frame("", false));
}

#[test]
fn nothing_recognized_gives_empty_text() {
    assert_eq!(parse(b"fps=30\nbitrate=1200kbits/s\nspeed=1.5x"), frame("", false));
}

#[test]
fn all_five_keys_pass() {
    let text = "frame=1\ntotal_size=2\nout_time_ms=3\ndup_frames=4\ndrop_frames=5";
    assert_eq!(parse_text(text), frame(text, false));
}

#[test]
fn near_misses_do_not_pass() {
    let text = "frame\nframes=1\nout_time=3\nout_time_us=3\ntotal_size\n=frame=\nkey=frame=1";
    assert_eq!(parse_text(text), frame("", false));
}

#[test]
fn case_and_leading_space_are_taken_literally() {
    assert_eq!(parse_text("Frame=1\n frame=2\nFRAME=3\nframe =4"), frame("", false));
}

#[test]
fn prefix_alone_is_a_line() {
    assert_eq!(parse_text("frame="), frame("frame=", false));
}

#[test]
fn order_and_repeats_are_kept() {
    let got = parse_text("drop_frames=0\nx=1\nframe=2\nframe=2\ny=3\ndup_frames=9\nframe=1");
    assert_eq!(got, frame("drop_frames=0\nframe=2\nframe=2\ndup_frames=9\nframe=1", false));
}

#[test]
fn trailing_line_feed_adds_nothing() {
    assert_eq!(parse_text("frame=1\n"), frame("frame=1", false));
    assert_eq!(parse_text("\n\nframe=1\n\n"), frame("frame=1", false));
}

#[test]
fn carriage_returns_stay_in_the_line() {
    let got = parse(b"frame=7\r\nfps=25\r\ntotal_size=9\r\n");
    assert_eq!(got, frame("frame=7\r\ntotal_size=9\r", false));
}

#[test]
fn carriage_return_after_end_hides_the_marker() {
    assert_eq!(parse(b"progress=end\r\n"), frame("", false));
    assert_eq!(parse(b"progress=end\n"), frame("", true));
}

#[test]
fn a_kept_line_can_carry_the_marker() {
    assert_eq!(parse_text("frame=end"), frame("frame=end", true));
}

#[test]
fn marker_must_close_the_line() {
    assert_eq!(parse_text("progress=ending\nprogress=end \nend"), frame("", false));
    assert_eq!(parse_text("=end"), frame("", true));
    assert_eq!(parse_text("a==end"), frame("", true));
}

#[test]
fn marker_in_any_position_counts() {
    assert_eq!(parse_text("progress=end\nframe=1\nframe=2"), frame("frame=1\nframe=2", true));
    assert_eq!(parse_text("frame=1\nprogress=end\nframe=2"), frame("frame=1\nframe=2", true));
}

#[test]
fn invalid_bytes_are_replaced_not_refused() {
    let got = parse(b"frame=\xff1\nfps=\xc3\n\xfe\xfe=end");
    assert_eq!(got, frame("frame=\u{fffd}1", true));
}

#[test]
fn invalid_bytes_in_a_key_spoil_the_match() {
    assert_eq!(parse(b"fra\xffme=1\nframe=2"), frame("frame=2", false));
}

#[test]
fn text_beyond_ascii_is_carried_through() {
    let text = "frame=\u{e9}t\u{e9}\n\u{65e5}\u{672c}=end";
    assert_eq!(parse(text.as_bytes()), frame("frame=\u{e9}t\u{e9}", true));
    assert_eq!(parse_text(text), frame("frame=\u{e9}t\u{e9}", true));
}

#[test]
fn parsing_twice_gives_the_same_frame() {
    let datagram = b"frame=3\nnoise\ndrop_frames=1\nprogress=end";
    let first = parse(datagram);
    let second = parse(datagram);
    assert_eq!(first, second);
    assert_eq!(first, frame("frame=3\ndrop_frames=1", true));
}

#[test]
fn filtering_the_filtered_text_changes_nothing() {
    let once = parse_text("a=1\nframe=3\nb=2\ntotal_size=10\nprogress=end");
    let twice = parse_text(&once.data);
    assert_eq!(twice.data, once.data);
    assert_eq!(twice.data, "frame=3\ntotal_size=10");
    assert_eq!(parse_text(&parse_text("a=1").data).data, "");
}

#[test]
fn default_size_is_512_bytes() {
    assert_eq!(MAX_DATAGRAM_SIZE, 512);
}

#[test]
fn clip_cuts_at_the_limit_only() {
    let bytes: Vec<u8> = (0..=255u8).collect();
    assert_eq!(clip(&bytes, 10), &bytes[..10]);
    assert_eq!(clip(&bytes, 256), &bytes[..]);
    assert_eq!(clip(&bytes, 257), &bytes[..]);
    assert_eq!(clip(&bytes, usize::MAX), &bytes[..]);
    assert_eq!(clip(&bytes, 0), &bytes[..0]);
    assert_eq!(clip(&[], 0).len(), 0);
}

#[test]
fn oversized_datagram_is_cut_at_the_boundary() {
    let mut datagram: Vec<u8> = Vec::new();
    datagram.extend_from_slice(b"frame=1\n");
    while datagram.len() < 500 {
        datagram.extend_from_slice(b"pad=0\n");
    }
    datagram.truncate(500);
    datagram.extend_from_slice(b"\ntotal_size=123456789\nprogress=end");
    assert!(datagram.len() > 512);
    let got = parse_bounded(&datagram, 512);
    assert_eq!(got, frame("frame=1\ntotal_size=", false));
    assert_eq!(got, parse(&datagram[..512]));
    assert_eq!(parse(&datagram), frame("frame=1\ntotal_size=123456789", true));
}

#[test]
fn cut_may_fall_inside_a_character() {
    let datagram = "frame=\u{e9}".as_bytes();
    assert_eq!(datagram.len(), 8);
    assert_eq!(parse_bounded(datagram, 7), frame("frame=\u{fffd}", false));
    assert_eq!(parse_bounded(datagram, 8), frame("frame=\u{e9}", false));
    assert_eq!(parse_bounded(datagram, 6), frame("frame=", false));
    assert_eq!(parse_bounded(datagram, 5), frame("", false));
    assert_eq!(parse_bounded(datagram, 0), frame("", false));
}

#[test]
fn datagram_within_the_limit_is_parsed_whole() {
    let datagram = b"frame=1\nprogress=end";
    assert_eq!(parse_bounded(datagram, 512), parse(datagram));
    assert_eq!(parse_bounded(datagram, datagram.len()), frame("frame=1", true));
}

#[test]
fn split_cuts_at_every_line_feed() {
    assert_eq!(split(&chars("")), vec![chars("")]);
    assert_eq!(split(&chars("a")), vec![chars("a")]);
    assert_eq!(split(&chars("\n")), vec![chars(""), chars("")]);
    assert_eq!(split(&chars("a\nbc\n\nd\r\n")), vec![chars("a"), chars("bc"), chars(""), chars("d\r"), chars("")]);
}

#[test]
fn join_puts_line_feeds_between_lines() {
    assert_eq!(join(&vec![]), "");
    assert_eq!(join(&vec![chars("a")]), "a");
    assert_eq!(join(&vec![chars("a"), chars(""), chars("bc")]), "a\n\nbc");
    assert_eq!(join(&vec![chars(""), chars("")]), "\n");
}

#[test]
fn join_undoes_split() {
    for text in ["", "\n", "frame=1\nfps=2", "\n\na\n", "x\r\ny"] {
        assert_eq!(join(&split(&chars(text))), text);
    }
}

#[test]
fn text_chars_lists_the_characters() {
    assert_eq!(text_chars(""), Vec::<char>::new());
    assert_eq!(text_chars("a\u{e9}\n"), vec!['a', '\u{e9}', '\n']);
}

#[test]
fn starts_with_and_ends_with_compare_whole_affixes() {
    assert!(starts_with(&chars("frame=1"), &chars("frame=")));
    assert!(starts_with(&chars("frame="), &chars("frame=")));
    assert!(starts_with(&chars("x"), &chars("")));
    assert!(!starts_with(&chars("frame"), &chars("frame=")));
    assert!(!starts_with(&chars("grame=1"), &chars("frame=")));
    assert!(!starts_with(&chars("framE=1"), &chars("frame=")));
    assert!(ends_with(&chars("progress=end"), &chars("=end")));
    assert!(ends_with(&chars("=end"), &chars("=end")));
    assert!(ends_with(&chars("x"), &chars("")));
    assert!(!ends_with(&chars("end"), &chars("=end")));
    assert!(!ends_with(&chars("=end "), &chars("=end")));
    assert!(!ends_with(&chars("=enD"), &chars("=end")));
    assert!(!ends_with(&chars("=end=ene"), &chars("=end")));
}

#[test]
fn recognized_and_end_marker_test_single_lines() {
    for line in ["frame=", "total_size=0", "out_time_ms=-1", "dup_frames=x", "drop_frames= "] {
        assert!(recognized(&chars(line)), "{}", line);
    }
    for line in ["", "frame", "fps=1", "progress=end", "bitrate=frame=", "speed=1x"] {
        assert!(!recognized(&chars(line)), "{}", line);
    }
    assert!(end_marker(&chars("progress=end")));
    assert!(!end_marker(&chars("progress=continue")));
    assert!(!end_marker(&chars("")));
}
