//! Reading of the loudness measurements that the encoder prints after a
//! measurement pass.
//!
//! The summary is a JSON-shaped object somewhere in the captured output. Its
//! format is not stable, so each field is found by a tolerant scan: the quoted
//! key, the next colon, then the run of number characters that stands right
//! behind it, with or without an opening quote.

use crate::decimal::{check_decimal, is_decimal, unsigned_body};
use crate::text::{
    append_bytes, byte_is_digit, byte_is_space, find, find_byte, first_byte, first_occurrence,
    is_digit, is_space, last_byte, rfind_byte,
};
use vstd::prelude::*;
use vstd::slice::slice_subrange;
use vstd::string::StringSliceAdditionalSpecFns;

verus! {

/// A byte that may stand in a number: a digit, a minus sign or a decimal point.
pub open spec fn is_number_byte(b: u8) -> bool {
    is_digit(b) || b == 45 || b == 46
}

/// The first index at or after `i` that holds no whitespace, or the length
/// of `s` where none follows.
pub open spec fn space_end(s: Seq<u8>, i: int) -> int
    decreases s.len() - i,
{
    if 0 <= i < s.len() && is_space(s[i]) {
        space_end(s, i + 1)
    } else {
        i
    }
}

/// Where the value at the start of `s` begins: behind leading whitespace and
/// behind one double quote, if one stands there.
pub open spec fn number_start(s: Seq<u8>) -> int {
    let k = space_end(s, 0);
    if k < s.len() && s[k] == 34 {
        k + 1
    } else {
        k
    }
}

/// The first index at or after `i` that holds no number byte, or the length
/// of `s` where none follows.
pub open spec fn number_end(s: Seq<u8>, i: int) -> int
    decreases s.len() - i,
{
    if 0 <= i < s.len() && is_number_byte(s[i]) {
        number_end(s, i + 1)
    } else {
        i
    }
}

/// The run of number bytes with which the value at the start of `s` begins;
/// empty where that value begins with another byte.
pub open spec fn number_token(s: Seq<u8>) -> Seq<u8> {
    let from = number_start(s);
    s.subrange(from, number_end(s, from))
}

/// `key` between double quotes.
pub open spec fn quoted(key: Seq<u8>) -> Seq<u8> {
    seq![34u8] + key + seq![34u8]
}

/// The number given for `key` in `block`: the run of number bytes that
/// stands right behind the first occurrence of the quoted key and the first
/// colon after it, provided that run is a decimal number. Only whitespace and
/// one double quote may stand between the colon and the run: a value that
/// begins otherwise gives nothing, whatever follows it.
pub open spec fn extracted_number(block: Seq<u8>, key: Seq<u8>) -> Option<Seq<u8>> {
    match first_occurrence(block, quoted(key)) {
        None => None,
        Some(pos) => {
            let rest = block.skip(pos + quoted(key).len());
            match first_byte(rest, 58) {
                None => None,
                Some(colon) => {
                    let token = number_token(rest.skip(colon + 1));
                    if is_decimal(token) {
                        Some(token)
                    } else {
                        None
                    }
                },
            }
        },
    }
}

/// Leading whitespace ends within the text.
pub proof fn lemma_space_end_bounds(s: Seq<u8>, i: int)
    requires
        0 <= i <= s.len(),
    ensures
        i <= space_end(s, i) <= s.len(),
    decreases s.len() - i,
{
    if i < s.len() && is_space(s[i]) {
        lemma_space_end_bounds(s, i + 1);
    }
}

/// A value that begins with a byte that is no number byte gives an empty
/// run, which is no decimal number: what follows that value is not looked at.
pub proof fn lemma_value_must_begin_with_number(s: Seq<u8>)
    requires
        number_start(s) >= s.len() || !is_number_byte(s[number_start(s)]),
    ensures
        number_token(s) == Seq::<u8>::empty(),
        !is_decimal(number_token(s)),
{
    lemma_space_end_bounds(s, 0);
    assert(number_end(s, number_start(s)) == number_start(s));
    assert(number_token(s) =~= Seq::<u8>::empty());
    assert(unsigned_body(Seq::<u8>::empty()) == Seq::<u8>::empty());
}

fn byte_is_number(b: u8) -> (r: bool)
    ensures
        r == is_number_byte(b),
{
    byte_is_digit(b) || b == 45 || b == 46
}

/// Bounds of the run of number bytes with which the value at the start of
/// `s` begins.
pub fn scan_number(s: &[u8]) -> (r: (usize, usize))
    ensures
        r.0 == number_start(s@),
        r.1 == number_end(s@, r.0 as int),
        r.0 <= r.1 <= s@.len(),
        s@.subrange(r.0 as int, r.1 as int) == number_token(s@),
{
    let n = s.len();
    let mut k: usize = 0;
    while k < n && byte_is_space(s[k])
        invariant
            k <= n == s@.len(),
            space_end(s@, 0) == space_end(s@, k as int),
        decreases n - k,
    {
        k += 1;
    }
    let i: usize = if k < n && s[k] == 34 { k + 1 } else { k };
    let mut j: usize = i;
    while j < n && byte_is_number(s[j])
        invariant
            i <= j <= n == s@.len(),
            number_end(s@, i as int) == number_end(s@, j as int),
        decreases n - j,
    {
        j += 1;
    }
    (i, j)
}

/// Looks up the number given for `key` in `block`.
pub fn extract_number(block: &[u8], key: &[u8]) -> (r: Option<Vec<u8>>)
    ensures
        match r {
            Some(v) => extracted_number(block@, key@) == Some(v@),
            None => extracted_number(block@, key@) is None,
        },
{
    let mut pattern: Vec<u8> = Vec::new();
    pattern.push(34);
    append_bytes(&mut pattern, key);
    pattern.push(34);
    proof {
        assert(pattern@ =~= quoted(key@));
    }
    let pos: usize = match find(block, pattern.as_slice()) {
        Some(p) => p,
        None => {
            return None;
        },
    };
    let n = block.len();
    let rest = slice_subrange(block, pos + pattern.len(), n);
    proof {
        assert(rest@ =~= block@.skip(pos + quoted(key@).len()));
    }
    let colon: usize = match find_byte(rest, 58) {
        Some(c) => c,
        None => {
            return None;
        },
    };
    let tail = slice_subrange(rest, colon + 1, rest.len());
    proof {
        assert(tail@ =~= rest@.skip(colon + 1));
    }
    let (from, to) = scan_number(tail);
    let token = slice_subrange(tail, from, to);
    if check_decimal(token) {
        let mut out: Vec<u8> = Vec::new();
        append_bytes(&mut out, token);
        proof {
            assert(out@ =~= token@);
        }
        Some(out)
    } else {
        None
    }
}

/// The summary block of the captured output: from its first opening brace to
/// its last closing brace, where the one stands before the other.
pub open spec fn summary_block(text: Seq<u8>) -> Option<Seq<u8>> {
    match (first_byte(text, 123), last_byte(text, 125)) {
        (Some(open), Some(close)) => if open < close {
            Some(text.subrange(open, close + 1))
        } else {
            None
        },
        _ => None,
    }
}

/// Finds the summary block in the captured output.
pub fn find_summary_block<'a>(text: &'a [u8]) -> (r: Option<&'a [u8]>)
    ensures
        match r {
            Some(b) => summary_block(text@) == Some(b@),
            None => summary_block(text@) is None,
        },
{
    if text.len() == 0 {
        return None;
    }
    match find_byte(text, 123) {
        Some(open) => match rfind_byte(text, 125) {
            Some(close) => {
                if open < close {
                    Some(slice_subrange(text, open, close + 1))
                } else {
                    None
                }
            },
            None => None,
        },
        None => None,
    }
}

/// The value of one field: what the block gives under the first key, else
/// what it gives under the second, else the fallback.
pub open spec fn field_value(
    block: Seq<u8>,
    first_key: Seq<u8>,
    second_key: Seq<u8>,
    fallback: Seq<u8>,
) -> Seq<u8> {
    match extracted_number(block, first_key) {
        Some(v) => v,
        None => match extracted_number(block, second_key) {
            Some(v) => v,
            None => fallback,
        },
    }
}

/// Looks one field up under its two keys, with a fallback.
pub fn read_field(block: &[u8], first_key: &[u8], second_key: &[u8], fallback: &[u8]) -> (r: Vec<
    u8,
>)
    ensures
        r@ == field_value(block@, first_key@, second_key@, fallback@),
{
    if let Some(v) = extract_number(block, first_key) {
        return v;
    }
    if let Some(v) = extract_number(block, second_key) {
        return v;
    }
    let mut out: Vec<u8> = Vec::new();
    append_bytes(&mut out, fallback);
    proof {
        assert(out@ =~= fallback@);
    }
    out
}

/// The four measurements of a pass, each as the text of a decimal number.
#[derive(Clone, Debug, PartialEq, Eq)]
pub struct LoudnessParams {
    /// Integrated loudness, in LUFS.
    pub integrated: Vec<u8>,
    /// Loudness range, in LU.
    pub range: Vec<u8>,
    /// True peak, in dBTP.
    pub true_peak: Vec<u8>,
    /// Threshold, in LUFS.
    pub threshold: Vec<u8>,
}

/// The four measurements as plain byte sequences.
pub struct LoudnessValues {
    pub integrated: Seq<u8>,
    pub range: Seq<u8>,
    pub true_peak: Seq<u8>,
    pub threshold: Seq<u8>,
}

impl View for LoudnessParams {
    type V = LoudnessValues;

    open spec fn view(&self) -> LoudnessValues {
        LoudnessValues {
            integrated: self.integrated@,
            range: self.range@,
            true_peak: self.true_peak@,
            threshold: self.threshold@,
        }
    }
}

impl LoudnessValues {
    /// Every measurement is a decimal number.
    pub open spec fn well_formed(self) -> bool {
        &&& is_decimal(self.integrated)
        &&& is_decimal(self.range)
        &&& is_decimal(self.true_peak)
        &&& is_decimal(self.threshold)
    }
}

/// The measurements that a summary block gives, with the fallback for each
/// field that it lacks: -23.0, 7.0, -2.0 and -34.0.
pub open spec fn block_values(block: Seq<u8>) -> LoudnessValues {
    LoudnessValues {
        integrated: field_value(
            block,
            "input_i".spec_bytes(),
            "measured_I".spec_bytes(),
            "-23.0".spec_bytes(),
        ),
        range: field_value(
            block,
            "input_lra".spec_bytes(),
            "measured_LRA".spec_bytes(),
            "7.0".spec_bytes(),
        ),
        true_peak: field_value(
            block,
            "input_tp".spec_bytes(),
            "measured_TP".spec_bytes(),
            "-2.0".spec_bytes(),
        ),
        threshold: field_value(
            block,
            "input_thresh".spec_bytes(),
            "measured_thresh".spec_bytes(),
            "-34.0".spec_bytes(),
        ),
    }
}

/// The four fallbacks are decimal numbers.
pub proof fn lemma_fallbacks_decimal()
    ensures
        is_decimal("-23.0".spec_bytes()),
        is_decimal("7.0".spec_bytes()),
        is_decimal("-2.0".spec_bytes()),
        is_decimal("-34.0".spec_bytes()),
{
    broadcast use vstd::string::is_ascii_spec_bytes;

    reveal_strlit("-23.0");
    reveal_strlit("7.0");
    reveal_strlit("-2.0");
    reveal_strlit("-34.0");
    reveal_with_fuel(crate::text::byte_from, 6);
    let a = "-23.0".spec_bytes();
    let b = "7.0".spec_bytes();
    let c = "-2.0".spec_bytes();
    let d = "-34.0".spec_bytes();
    assert(vstd::string::is_ascii("-23.0"));
    assert(vstd::string::is_ascii("7.0"));
    assert(vstd::string::is_ascii("-2.0"));
    assert(vstd::string::is_ascii("-34.0"));
    assert(a =~= seq![45u8, 50, 51, 46, 48]);
    assert(b =~= seq![55u8, 46, 48]);
    assert(c =~= seq![45u8, 50, 46, 48]);
    assert(d =~= seq![45u8, 51, 52, 46, 48]);
    assert(unsigned_body(a) =~= seq![50u8, 51, 46, 48]);
    assert(unsigned_body(c) =~= seq![50u8, 46, 48]);
    assert(unsigned_body(d) =~= seq![51u8, 52, 46, 48]);
    assert(unsigned_body(b) =~= b);
}

/// Reads the four measurements out of a summary block.
pub fn read_block(block: &[u8]) -> (r: LoudnessParams)
    ensures
        r@ == block_values(block@),
        r@.well_formed(),
{
    proof {
        lemma_fallbacks_decimal();
    }
    LoudnessParams {
        integrated: read_field(
            block,
            "input_i".as_bytes(),
            "measured_I".as_bytes(),
            "-23.0".as_bytes(),
        ),
        range: read_field(
            block,
            "input_lra".as_bytes(),
            "measured_LRA".as_bytes(),
            "7.0".as_bytes(),
        ),
        true_peak: read_field(
            block,
            "input_tp".as_bytes(),
            "measured_TP".as_bytes(),
            "-2.0".as_bytes(),
        ),
        threshold: read_field(
            block,
            "input_thresh".as_bytes(),
            "measured_thresh".as_bytes(),
            "-34.0".as_bytes(),
        ),
    }
}

/// What a measurement pass yields: the measurements of the summary block in
/// its standard output followed by its standard error, where the pass ended
/// well and such a block exists.
pub open spec fn measurement(exit_ok: bool, stdout: Seq<u8>, stderr: Seq<u8>) -> Option<
    LoudnessValues,
> {
    if !exit_ok {
        None
    } else {
        match summary_block(stdout + stderr) {
            Some(block) => Some(block_values(block)),
            None => None,
        }
    }
}

/// Reads the measurements from what a measurement pass left behind.
pub fn parse_loudness(exit_ok: bool, stdout: &[u8], stderr: &[u8]) -> (r: Option<LoudnessParams>)
    ensures
        match r {
            Some(p) => measurement(exit_ok, stdout@, stderr@) == Some(p@) && p@.well_formed(),
            None => measurement(exit_ok, stdout@, stderr@) is None,
        },
{
    if !exit_ok {
        return None;
    }
    let mut all: Vec<u8> = Vec::new();
    append_bytes(&mut all, stdout);
    append_bytes(&mut all, stderr);
    proof {
        assert(all@ =~= stdout@ + stderr@);
    }
    match find_summary_block(all.as_slice()) {
        Some(block) => Some(read_block(block)),
        None => None,
    }
}

} // verus!
