use dnxhd_transcoder::progress::{
    fraction, parse_line, ProgressLine, ProgressParser, Signal, FRACTION_CAP, FRACTION_WHOLE,
};

fn lines(items: &[&str]) -> Vec<Vec<u8>> {
    items.iter().map(|s| s.as_bytes().to_vec()).collect()
}

#[test]
fn elapsed_line_is_read_as_microseconds() {
    assert_eq!(parse_line(b"out_time_us=5000000\n"), ProgressLine::Elapsed(5_000_000));
}

#[test]
fn legacy_key_is_read_as_microseconds_too() {
    assert_eq!(parse_line(b"out_time_ms=5000000\n"), ProgressLine::Elapsed(5_000_000));
    assert_eq!(parse_line(b"out_time_ms=123"), ProgressLine::Elapsed(123));
}

#[test]
fn elapsed_value_may_be_padded_and_signed_plus() {
    assert_eq!(parse_line(b"out_time_us=  42 \r\n"), ProgressLine::Elapsed(42));
    assert_eq!(parse_line(b"out_time_us=+7\n"), ProgressLine::Elapsed(7));
    assert_eq!(parse_line(b"out_time_us=0\n"), ProgressLine::Elapsed(0));
}

#[test]
fn elapsed_value_that_is_no_number_is_ignored() {
    assert_eq!(parse_line(b"out_time_us=N/A\n"), ProgressLine::Other);
    assert_eq!(parse_line(b"out_time_us=\n"), ProgressLine::Other);
    assert_eq!(parse_line(b"out_time_us=-5\n"), ProgressLine::Other);
    assert_eq!(parse_line(b"out_time_us=12 34\n"), ProgressLine::Other);
    assert_eq!(parse_line(b"out_time_us=+\n"), ProgressLine::Other);
}

#[test]
fn elapsed_value_at_the_limit_of_64_bits() {
    assert_eq!(
        parse_line(b"out_time_us=18446744073709551615\n"),
        ProgressLine::Elapsed(u64::MAX)
    );
    assert_eq!(parse_line(b"out_time_us=18446744073709551616\n"), ProgressLine::Other);
    assert_eq!(parse_line(b"out_time_us=99999999999999999999999\n"), ProgressLine::Other);
}

#[test]
fn end_marker_is_the_whole_line() {
    assert_eq!(parse_line(b"progress=end\n"), ProgressLine::End);
    assert_eq!(parse_line(b"progress=end"), ProgressLine::End);
    assert_eq!(parse_line(b"progress=end\r\n"), ProgressLine::End);
    assert_eq!(parse_line(b"progress=ended\n"), ProgressLine::Other);
    assert_eq!(parse_line(b" progress=end\n"), ProgressLine::Other);
}

#[test]
fn unknown_keys_are_ignored() {
    assert_eq!(parse_line(b"progress=continue\n"), ProgressLine::Other);
    assert_eq!(parse_line(b"frame=250\n"), ProgressLine::Other);
    assert_eq!(parse_line(b"out_time=00:00:05.000000\n"), ProgressLine::Other);
    assert_eq!(parse_line(b""), ProgressLine::Other);
    assert_eq!(parse_line(b"\n"), ProgressLine::Other);
}

#[test]
fn fraction_is_elapsed_over_duration_in_millionths() {
    assert_eq!(fraction(5_000_000, 10_000_000), 500_000);
    assert_eq!(fraction(0, 10_000_000), 0);
    assert_eq!(fraction(1, 3), 333_333);
    assert_eq!(fraction(2_500_000, 10_000_000), 250_000);
}

#[test]
fn fraction_is_held_at_the_cap() {
    assert_eq!(FRACTION_CAP, 999_000);
    assert_eq!(FRACTION_WHOLE, 1_000_000);
    assert_eq!(fraction(10_000_000, 10_000_000), 999_000);
    assert_eq!(fraction(9_990_000, 10_000_000), 999_000);
    assert_eq!(fraction(9_989_999, 10_000_000), 998_999);
    assert_eq!(fraction(20_000_000, 10_000_000), 999_000);
    assert_eq!(fraction(u64::MAX, 1), 999_000);
    assert_eq!(fraction(u64::MAX, u64::MAX), 999_000);
}

#[test]
fn fraction_does_not_fall_while_elapsed_grows() {
    let duration = 7_654_321u64;
    let mut last = 0u32;
    let mut elapsed = 0u64;
    while elapsed < 2 * duration {
        let f = fraction(elapsed, duration);
        assert!(f >= last);
        assert!(f <= FRACTION_CAP);
        last = f;
        elapsed += 173_411;
    }
    assert_eq!(last, FRACTION_CAP);
}

#[test]
fn known_duration_gives_a_ratio_for_each_elapsed_line() {
    let mut p = ProgressParser::new(Some(10_000_000));
    assert!(p.knows_duration());
    assert_eq!(p.feed(b"frame=1\n"), None);
    assert_eq!(p.feed(b"out_time_us=1000000\n"), Some(Signal::Fraction(100_000)));
    assert_eq!(p.feed(b"out_time_ms=1000000\n"), Some(Signal::Fraction(100_000)));
    assert_eq!(p.feed(b"out_time_us=12000000\n"), Some(Signal::Fraction(999_000)));
    assert_eq!(p.feed(b"progress=end\n"), Some(Signal::Finished));
}

#[test]
fn unknown_duration_gives_one_indeterminate_signal() {
    let mut p = ProgressParser::new(None);
    assert!(!p.knows_duration());
    assert_eq!(p.feed(b"frame=1\n"), None);
    assert_eq!(p.feed(b"out_time_us=1000000\n"), Some(Signal::Indeterminate));
    assert_eq!(p.feed(b"out_time_ms=1000000\n"), None);
    assert_eq!(p.feed(b"out_time_us=2000000\n"), None);
    assert_eq!(p.feed(b"progress=end\n"), Some(Signal::Finished));
}

#[test]
fn zero_duration_counts_as_unknown() {
    let mut p = ProgressParser::new(Some(0));
    assert!(!p.knows_duration());
    let out = p.feed_all(&lines(&[
        "out_time_us=1\n",
        "out_time_us=2\n",
        "out_time_us=3\n",
        "progress=end\n",
    ]));
    assert_eq!(out, vec![Signal::Indeterminate, Signal::Finished]);
    let count = out.iter().filter(|s| **s == Signal::Indeterminate).count();
    assert_eq!(count, 1);
}

#[test]
fn unknown_duration_without_elapsed_lines_gives_no_indeterminate_signal() {
    let mut p = ProgressParser::new(None);
    let out = p.feed_all(&lines(&["frame=1\n", "fps=25\n", "progress=end\n"]));
    assert_eq!(out, vec![Signal::Finished]);
}

#[test]
fn whole_stream_with_known_duration() {
    let mut p = ProgressParser::new(Some(4_000_000));
    let out = p.feed_all(&lines(&[
        "frame=10\n",
        "out_time_us=1000000\n",
        "out_time_ms=1000000\n",
        "out_time=00:00:01.000000\n",
        "progress=continue\n",
        "out_time_us=3000000\n",
        "progress=continue\n",
        "out_time_us=4000000\n",
        "progress=end\n",
    ]));
    assert_eq!(
        out,
        vec![
            Signal::Fraction(250_000),
            Signal::Fraction(250_000),
            Signal::Fraction(750_000),
            Signal::Fraction(999_000),
            Signal::Finished,
        ]
    );
}

#[test]
fn empty_stream_gives_nothing() {
    let mut p = ProgressParser::new(Some(4_000_000));
    assert_eq!(p.feed_all(&Vec::new()), Vec::new());
}

#[test]
fn classified_lines_can_be_handed_in_directly() {
    let mut p = ProgressParser::new(Some(1_000_000));
    assert_eq!(p.accept(ProgressLine::Elapsed(500_000)), Some(Signal::Fraction(500_000)));
    assert_eq!(p.accept(ProgressLine::Other), None);
    assert_eq!(p.accept(ProgressLine::End), Some(Signal::Finished));
}
