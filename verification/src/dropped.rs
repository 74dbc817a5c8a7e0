//! Reading of a dropped URI list: one path for each line that names one.

use crate::text::{find_byte, first_byte, has_prefix, starts_with, trim, trim_bounds};
use vstd::prelude::*;
use vstd::slice::slice_subrange;
use vstd::string::StringSliceAdditionalSpecFns;

verus! {

/// Value of a hexadecimal digit, in either case.
pub open spec fn hex_value(b: u8) -> Option<int> {
    if 48 <= b <= 57 {
        Some(b - 48)
    } else if 97 <= b <= 102 {
        Some(b - 87)
    } else if 65 <= b <= 70 {
        Some(b - 55)
    } else {
        None
    }
}

/// `s` with every `%` that two hexadecimal digits follow replaced, together
/// with those digits, by the byte they spell; every other byte stays.
pub open spec fn percent_decoded(s: Seq<u8>) -> Seq<u8>
    decreases s.len(),
{
    if s.len() == 0 {
        seq![]
    } else if s[0] == 37 && s.len() >= 3 && hex_value(s[1]) is Some && hex_value(s[2]) is Some {
        seq![(hex_value(s[1])->0 * 16 + hex_value(s[2])->0) as u8] + percent_decoded(s.skip(3))
    } else {
        seq![s[0]] + percent_decoded(s.skip(1))
    }
}

/// Calls `percent_encoding::percent_decode` and collects the bytes it
/// yields. The contract restates what that iterator does: a `%` followed by
/// two hexadecimal digits yields the one byte they spell, and every other
/// byte yields itself.
#[verifier::external_body]
fn percent_decode(s: &[u8]) -> (r: Vec<u8>)
    ensures
        r@ == percent_decoded(s@),
{
    percent_encoding::percent_decode(s).collect()
}

/// The scheme prefix of a local file's URI.
pub open spec fn file_scheme() -> Seq<u8> {
    "file://".spec_bytes()
}

/// The path that one line of a URI list names: none for a blank line or a
/// comment; else the line without surrounding whitespace and without the
/// local-file scheme, percent-decoded.
pub open spec fn line_path(line: Seq<u8>) -> Option<Seq<u8>> {
    let s = trim(line);
    if s.len() == 0 || s[0] == 35 {
        None
    } else if has_prefix(s, file_scheme()) {
        Some(percent_decoded(s.skip(file_scheme().len() as int)))
    } else {
        Some(percent_decoded(s))
    }
}

/// Reads the path that one line of a URI list names.
pub fn dropped_path(line: &[u8]) -> (r: Option<Vec<u8>>)
    ensures
        match r {
            Some(p) => line_path(line@) == Some(p@),
            None => line_path(line@) is None,
        },
{
    let (a, b) = trim_bounds(line);
    let s = slice_subrange(line, a, b);
    if s.len() == 0 || s[0] == 35 {
        return None;
    }
    let scheme = "file://".as_bytes();
    if starts_with(s, scheme) {
        let rest = slice_subrange(s, scheme.len(), s.len());
        proof {
            assert(rest@ =~= s@.skip(file_scheme().len() as int));
        }
        Some(percent_decode(rest))
    } else {
        Some(percent_decode(s))
    }
}

/// Index of the first line feed of `text`, or its length where it has none.
pub open spec fn line_end(text: Seq<u8>) -> int {
    match first_byte(text, 10) {
        Some(k) => k,
        None => text.len() as int,
    }
}

/// The lines of `text`, without their line feeds. A line feed at the very
/// end opens no further line.
pub open spec fn lines_of(text: Seq<u8>) -> Seq<Seq<u8>>
    decreases text.len(),
{
    if text.len() == 0 {
        seq![]
    } else {
        let k = line_end(text);
        if 0 <= k < text.len() {
            seq![text.subrange(0, k)] + lines_of(text.skip(k + 1))
        } else {
            seq![text]
        }
    }
}

/// The paths that the given lines name, in order.
pub open spec fn paths_of(lines: Seq<Seq<u8>>) -> Seq<Seq<u8>>
    decreases lines.len(),
{
    if lines.len() == 0 {
        seq![]
    } else {
        let front = paths_of(lines.drop_last());
        match line_path(lines.last()) {
            Some(p) => front.push(p),
            None => front,
        }
    }
}

/// Behind a run of lines, the paths of further lines follow the paths of
/// the run.
pub proof fn lemma_paths_of_concat(a: Seq<Seq<u8>>, b: Seq<Seq<u8>>)
    ensures
        paths_of(a + b) == paths_of(a) + paths_of(b),
    decreases b.len(),
{
    if b.len() == 0 {
        assert(a + b =~= a);
        assert(paths_of(a) + paths_of(b) =~= paths_of(a));
    } else {
        lemma_paths_of_concat(a, b.drop_last());
        assert((a + b).drop_last() =~= a + b.drop_last());
        assert((a + b).last() == b.last());
        match line_path(b.last()) {
            Some(p) => {
                assert((paths_of(a) + paths_of(b.drop_last())).push(p) =~= paths_of(a) + paths_of(
                    b.drop_last(),
                ).push(p));
            },
            None => {},
        }
    }
}

/// Reads the paths that a dropped URI list names, in order.
pub fn dropped_paths(text: &[u8]) -> (r: Vec<Vec<u8>>)
    ensures
        r.deep_view() == paths_of(lines_of(text@)),
{
    let n = text.len();
    let mut out: Vec<Vec<u8>> = Vec::new();
    let mut start: usize = 0;
    let ghost mut done: Seq<Seq<u8>> = seq![];
    proof {
        assert(text@.skip(0) =~= text@);
        assert(done + lines_of(text@.skip(0)) =~= lines_of(text@));
        assert(out.deep_view() =~= paths_of(done));
    }
    while start < n
        invariant
            start <= n == text@.len(),
            lines_of(text@) == done + lines_of(text@.skip(start as int)),
            out.deep_view() == paths_of(done),
        decreases n - start,
    {
        let rest = slice_subrange(text, start, n);
        proof {
            assert(rest@ =~= text@.skip(start as int));
        }
        let end: usize = match find_byte(rest, 10) {
            Some(k) => k,
            None => rest.len(),
        };
        let line = slice_subrange(rest, 0, end);
        let found = dropped_path(line);
        let ghost before = out.deep_view();
        match found {
            Some(p) => {
                proof {
                    assert(p.deep_view() =~= p@);
                }
                out.push(p);
                proof {
                    assert(out.deep_view() =~= before.push(line_path(line@)->0));
                }
            },
            None => {},
        }
        proof {
            let tail = if end < rest@.len() {
                lines_of(rest@.skip(end + 1))
            } else {
                Seq::<Seq<u8>>::empty()
            };
            assert(rest@.subrange(0, rest@.len() as int) =~= rest@);
            assert(lines_of(rest@) =~= seq![line@] + tail);
            lemma_paths_of_concat(done, seq![line@]);
            assert(seq![line@].drop_last() =~= Seq::<Seq<u8>>::empty());
            assert(paths_of(Seq::<Seq<u8>>::empty()) =~= Seq::<Seq<u8>>::empty());
            assert(seq![line@].last() == line@);
            assert(paths_of(seq![line@]) =~= match line_path(line@) {
                Some(p) => seq![p],
                None => seq![],
            });
            assert(out.deep_view() =~= paths_of(done + seq![line@]));
            assert(lines_of(text@) =~= (done + seq![line@]) + tail);
            done = done + seq![line@];
            if end < rest@.len() {
                assert(rest@.skip(end + 1) =~= text@.skip(start + end + 1));
            } else {
                assert(text@.skip(n as int) =~= Seq::<u8>::empty());
            }
        }
        start = if end < rest.len() { start + end + 1 } else { n };
    }
    proof {
        assert(text@.skip(n as int) =~= Seq::<u8>::empty());
        assert(done + lines_of(text@.skip(n as int)) =~= done);
    }
    out
}

} // verus!
