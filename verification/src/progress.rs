//! Decoding of the encoder's line-oriented `key=value` progress stream into
//! progress signals.
//!
//! Fractions are counted in millionths of the whole, so that a known
//! completion ratio is an integer between 0 and 1 000 000.

use crate::text::{bytes_eq, has_prefix, parse_u64, parsed_u64, starts_with, trim_end, trim_end_len};
use vstd::prelude::*;
use vstd::slice::slice_subrange;
use vstd::string::StringSliceAdditionalSpecFns;

verus! {

/// A whole, in millionths.
pub const FRACTION_WHOLE: u32 = 1_000_000;

/// The most that is reported while the encoder still runs, in millionths.
pub const FRACTION_CAP: u32 = 999_000;

/// Key of the elapsed output time in microseconds.
pub open spec fn elapsed_key() -> Seq<u8> {
    "out_time_us=".spec_bytes()
}

/// Older key of the elapsed output time. Its name speaks of milliseconds; its
/// value is in microseconds all the same.
pub open spec fn legacy_elapsed_key() -> Seq<u8> {
    "out_time_ms=".spec_bytes()
}

/// The line that ends the stream.
pub open spec fn end_marker() -> Seq<u8> {
    "progress=end".spec_bytes()
}

/// What one line of the progress stream means.
#[derive(Clone, Copy, Debug, PartialEq, Eq, Structural)]
pub enum ProgressLine {
    /// Elapsed output time, in microseconds.
    Elapsed(u64),
    /// The end marker.
    End,
    /// Anything else: ignored.
    Other,
}

/// The number that follows `key` at the start of `line`, if `line` starts
/// with `key` and a number follows.
pub open spec fn keyed_number(line: Seq<u8>, key: Seq<u8>) -> Option<u64> {
    if has_prefix(line, key) {
        parsed_u64(line.skip(key.len() as int))
    } else {
        None
    }
}

/// Meaning of one line, with or without its line terminator.
pub open spec fn classify_line(line: Seq<u8>) -> ProgressLine {
    if let Some(us) = keyed_number(line, elapsed_key()) {
        ProgressLine::Elapsed(us)
    } else if let Some(us) = keyed_number(line, legacy_elapsed_key()) {
        ProgressLine::Elapsed(us)
    } else if trim_end(line) == end_marker() {
        ProgressLine::End
    } else {
        ProgressLine::Other
    }
}

fn read_keyed_number(line: &[u8], key: &[u8]) -> (r: Option<u64>)
    ensures
        r == keyed_number(line@, key@),
{
    if starts_with(line, key) {
        let rest = slice_subrange(line, key.len(), line.len());
        proof {
            assert(rest@ =~= line@.skip(key@.len() as int));
        }
        parse_u64(rest)
    } else {
        None
    }
}

/// Tells what one line of the progress stream means.
pub fn parse_line(line: &[u8]) -> (r: ProgressLine)
    ensures
        r == classify_line(line@),
{
    if let Some(us) = read_keyed_number(line, "out_time_us=".as_bytes()) {
        return ProgressLine::Elapsed(us);
    }
    if let Some(us) = read_keyed_number(line, "out_time_ms=".as_bytes()) {
        return ProgressLine::Elapsed(us);
    }
    let body = slice_subrange(line, 0, trim_end_len(line));
    if bytes_eq(body, "progress=end".as_bytes()) {
        ProgressLine::End
    } else {
        ProgressLine::Other
    }
}

/// One update handed on to the consumer of a job's progress.
#[derive(Clone, Copy, Debug, PartialEq, Eq, Structural)]
pub enum Signal {
    /// A known completion ratio, in millionths, at most `FRACTION_CAP`.
    Fraction(u32),
    /// The total duration is unknown: show activity, not a ratio.
    Indeterminate,
    /// The encoder has written its end marker.
    Finished,
}

/// Completion ratio in millionths for `elapsed` of `duration` microseconds,
/// rounded down and held at `FRACTION_CAP`.
pub open spec fn fraction_of(elapsed: u64, duration: u64) -> int
    recommends
        duration > 0,
{
    let ratio = (elapsed as int * FRACTION_WHOLE as int) / (duration as int);
    if ratio > FRACTION_CAP as int {
        FRACTION_CAP as int
    } else {
        ratio
    }
}

/// Computes the completion ratio for a known, positive duration.
pub fn fraction(elapsed: u64, duration: u64) -> (r: u32)
    requires
        duration > 0,
    ensures
        r == fraction_of(elapsed, duration),
        r <= FRACTION_CAP,
{
    let scaled: u128 = (elapsed as u128) * 1_000_000u128;
    let ratio: u128 = scaled / (duration as u128);
    if ratio > 999_000u128 {
        FRACTION_CAP
    } else {
        ratio as u32
    }
}

/// The ratio stays between nothing and the cap, and never falls while the
/// elapsed time does not fall.
pub proof fn lemma_fraction_monotone(earlier: u64, later: u64, duration: u64)
    requires
        duration > 0,
        earlier <= later,
    ensures
        0 <= fraction_of(earlier, duration) <= fraction_of(later, duration) <= FRACTION_CAP,
{
    let a = earlier as int * FRACTION_WHOLE as int;
    let b = later as int * FRACTION_WHOLE as int;
    let d = duration as int;
    assert(0 <= a <= b) by (nonlinear_arith)
        requires
            0 <= earlier <= later,
            a == earlier as int * 1_000_000,
            b == later as int * 1_000_000,
    ;
    assert(0 <= a / d <= b / d) by (nonlinear_arith)
        requires
            0 <= a <= b,
            d > 0,
    ;
}

/// Decoder state for one job's progress stream.
#[derive(Clone, Copy, Debug, PartialEq, Eq, Structural)]
pub struct ProgressParser {
    /// Total duration in microseconds; zero where it is unknown.
    pub duration: u64,
    /// Whether the indeterminate signal has gone out already.
    pub announced: bool,
}

/// What the parser does with one classified line: its next state and the
/// signal it gives, if any.
pub open spec fn step(p: ProgressParser, line: ProgressLine) -> (ProgressParser, Option<Signal>) {
    match line {
        ProgressLine::Elapsed(us) => {
            if p.duration > 0 {
                (p, Some(Signal::Fraction(fraction_of(us, p.duration) as u32)))
            } else if !p.announced {
                (ProgressParser { duration: p.duration, announced: true }, Some(Signal::Indeterminate))
            } else {
                (p, None)
            }
        },
        ProgressLine::End => (p, Some(Signal::Finished)),
        ProgressLine::Other => (p, None),
    }
}

/// `out` with `s` behind it, where there is one.
pub open spec fn with_signal(out: Seq<Signal>, s: Option<Signal>) -> Seq<Signal> {
    match s {
        Some(x) => out.push(x),
        None => out,
    }
}

/// The parser's state after a whole stream, and the signals it gave, in order.
pub open spec fn run(p: ProgressParser, lines: Seq<Seq<u8>>) -> (ProgressParser, Seq<Signal>)
    decreases lines.len(),
{
    if lines.len() == 0 {
        (p, Seq::empty())
    } else {
        let before = run(p, lines.drop_last());
        let last = step(before.0, classify_line(lines.last()));
        (last.0, with_signal(before.1, last.1))
    }
}

impl ProgressParser {
    /// A parser for a job whose duration in microseconds is `duration`.
    /// `None` and zero both mean that it is unknown.
    pub fn new(duration: Option<u64>) -> (r: Self)
        ensures
            r.duration == (match duration {
                Some(d) => d,
                None => 0,
            }),
            !r.announced,
    {
        let d: u64 = match duration {
            Some(d) => d,
            None => 0,
        };
        ProgressParser { duration: d, announced: false }
    }

    /// Whether the duration is known, so that ratios are reported.
    pub fn knows_duration(&self) -> (r: bool)
        ensures
            r == (self.duration > 0),
    {
        self.duration > 0
    }

    /// Takes one classified line and gives the signal to hand on, if any.
    pub fn accept(&mut self, line: ProgressLine) -> (r: Option<Signal>)
        ensures
            (*final(self), r) == step(*old(self), line),
    {
        match line {
            ProgressLine::Elapsed(us) => {
                if self.duration > 0 {
                    Some(Signal::Fraction(fraction(us, self.duration)))
                } else if !self.announced {
                    self.announced = true;
                    Some(Signal::Indeterminate)
                } else {
                    None
                }
            },
            ProgressLine::End => Some(Signal::Finished),
            ProgressLine::Other => None,
        }
    }

    /// Takes one raw line of the stream and gives the signal to hand on, if any.
    pub fn feed(&mut self, line: &[u8]) -> (r: Option<Signal>)
        ensures
            (*final(self), r) == step(*old(self), classify_line(line@)),
    {
        let kind = parse_line(line);
        self.accept(kind)
    }

    /// Takes a whole stream, line by line, and gives its signals in order.
    pub fn feed_all(&mut self, lines: &Vec<Vec<u8>>) -> (r: Vec<Signal>)
        ensures
            (*final(self), r@) == run(*old(self), lines.deep_view()),
    {
        let mut out: Vec<Signal> = Vec::new();
        let mut i: usize = 0;
        let ghost all = lines.deep_view();
        while i < lines.len()
            invariant
                i <= lines.len(),
                all == lines.deep_view(),
                all.len() == lines.len(),
                (*self, out@) == run(*old(self), all.subrange(0, i as int)),
            decreases lines.len() - i,
        {
            proof {
                assert(all.subrange(0, i + 1).drop_last() =~= all.subrange(0, i as int));
                assert(all.subrange(0, i + 1).last() == lines@[i as int]@);
            }
            let s = self.feed(lines[i].as_slice());
            match s {
                Some(x) => {
                    out.push(x);
                },
                None => {},
            }
            i += 1;
        }
        proof {
            assert(all.subrange(0, lines.len() as int) =~= all);
        }
        out
    }
}

/// How often the indeterminate signal occurs among `signals`.
pub open spec fn count_indeterminate(signals: Seq<Signal>) -> nat
    decreases signals.len(),
{
    if signals.len() == 0 {
        0
    } else {
        count_indeterminate(signals.drop_last()) + (if signals.last() == Signal::Indeterminate {
            1nat
        } else {
            0nat
        })
    }
}

/// Some line of the stream carries the elapsed time.
pub open spec fn carries_elapsed(lines: Seq<Seq<u8>>) -> bool {
    exists|i: int| 0 <= i < lines.len() && (#[trigger] classify_line(lines[i])) is Elapsed
}

/// Without a known duration the stream gives no ratio at all, and the
/// indeterminate signal exactly once if any line carries the elapsed time and
/// the signal has not gone out before; otherwise never.
pub proof fn lemma_indeterminate_once(p: ProgressParser, lines: Seq<Seq<u8>>)
    requires
        p.duration == 0,
    ensures
        run(p, lines).0.duration == 0,
        run(p, lines).0.announced == (p.announced || carries_elapsed(lines)),
        count_indeterminate(run(p, lines).1) == (if !p.announced && carries_elapsed(lines) {
            1nat
        } else {
            0nat
        }),
        forall|i: int| 0 <= i < run(p, lines).1.len() ==> !((#[trigger] run(p, lines).1[i]) is Fraction),
    decreases lines.len(),
{
    if lines.len() > 0 {
        let front = lines.drop_last();
        lemma_indeterminate_once(p, front);
        let before = run(p, front);
        let last = step(before.0, classify_line(lines.last()));
        if carries_elapsed(front) {
            let i = choose|i: int| 0 <= i < front.len() && (#[trigger] classify_line(front[i])) is Elapsed;
            assert(classify_line(lines[i]) is Elapsed);
        }
        if classify_line(lines.last()) is Elapsed {
            assert(classify_line(lines[lines.len() - 1]) is Elapsed);
        }
        if carries_elapsed(lines) {
            let i = choose|i: int| 0 <= i < lines.len() && (#[trigger] classify_line(lines[i])) is Elapsed;
            if i < lines.len() - 1 {
                assert(classify_line(front[i]) is Elapsed);
            }
        }
        match last.1 {
            Some(x) => {
                assert(before.1.push(x).drop_last() =~= before.1);
            },
            None => {},
        }
    }
}

/// With a known duration every signal is a ratio within the cap or the end
/// signal: the indeterminate signal never occurs.
pub proof fn lemma_known_duration_signals(p: ProgressParser, lines: Seq<Seq<u8>>)
    requires
        p.duration > 0,
    ensures
        run(p, lines).0 == p,
        forall|i: int| 0 <= i < run(p, lines).1.len() ==> (match #[trigger] run(p, lines).1[i] {
            Signal::Fraction(f) => f <= FRACTION_CAP,
            Signal::Indeterminate => false,
            Signal::Finished => true,
        }),
    decreases lines.len(),
{
    if lines.len() > 0 {
        lemma_known_duration_signals(p, lines.drop_last());
        if let ProgressLine::Elapsed(us) = classify_line(lines.last()) {
            lemma_fraction_monotone(us, us, p.duration);
        }
    }
}

/// The elapsed times that the lines of a stream carry, in order.
pub open spec fn elapsed_times(lines: Seq<Seq<u8>>) -> Seq<u64>
    decreases lines.len(),
{
    if lines.len() == 0 {
        seq![]
    } else {
        let front = elapsed_times(lines.drop_last());
        match classify_line(lines.last()) {
            ProgressLine::Elapsed(us) => front.push(us),
            _ => front,
        }
    }
}

/// The ratios among `signals`, in order.
pub open spec fn ratios(signals: Seq<Signal>) -> Seq<int>
    decreases signals.len(),
{
    if signals.len() == 0 {
        seq![]
    } else {
        let front = ratios(signals.drop_last());
        match signals.last() {
            Signal::Fraction(f) => front.push(f as int),
            _ => front,
        }
    }
}

/// With a known duration the stream gives one ratio for each line that
/// carries the elapsed time, computed from that time.
pub proof fn lemma_ratios_follow_elapsed(p: ProgressParser, lines: Seq<Seq<u8>>)
    requires
        p.duration > 0,
    ensures
        ratios(run(p, lines).1).len() == elapsed_times(lines).len(),
        forall|i: int|
            0 <= i < elapsed_times(lines).len() ==> #[trigger] ratios(run(p, lines).1)[i]
                == fraction_of(elapsed_times(lines)[i], p.duration),
    decreases lines.len(),
{
    if lines.len() > 0 {
        let front = lines.drop_last();
        lemma_ratios_follow_elapsed(p, front);
        lemma_known_duration_signals(p, front);
        let before = run(p, front);
        let last = step(before.0, classify_line(lines.last()));
        match last.1 {
            Some(x) => {
                assert(before.1.push(x).drop_last() =~= before.1);
                assert(before.1.push(x).last() == x);
            },
            None => {},
        }
        if let ProgressLine::Elapsed(us) = classify_line(lines.last()) {
            lemma_fraction_monotone(us, us, p.duration);
        }
    }
}

/// With a known duration, while the elapsed times that the stream carries do
/// not fall, the ratios it gives do not fall either, and none passes the cap.
pub proof fn lemma_ratios_monotone(p: ProgressParser, lines: Seq<Seq<u8>>)
    requires
        p.duration > 0,
        forall|i: int, j: int|
            0 <= i <= j < elapsed_times(lines).len() ==> elapsed_times(lines)[i] <= elapsed_times(
                lines,
            )[j],
    ensures
        forall|i: int, j: int|
            0 <= i <= j < ratios(run(p, lines).1).len() ==> 0 <= #[trigger] ratios(
                run(p, lines).1,
            )[i] <= #[trigger] ratios(run(p, lines).1)[j] <= FRACTION_CAP,
{
    lemma_ratios_follow_elapsed(p, lines);
    let r = ratios(run(p, lines).1);
    let e = elapsed_times(lines);
    assert forall|i: int, j: int| 0 <= i <= j < r.len() implies 0 <= #[trigger] r[i] <= #[trigger] r[j]
        <= FRACTION_CAP by {
        assert(e[i] <= e[j]);
        lemma_fraction_monotone(e[i], e[j], p.duration);
    }
}

} // verus!
