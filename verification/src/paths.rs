//! Where the outputs go. Paths are byte strings whose components are
//! separated by `/`.

use crate::text::{append_bytes, last_byte, rfind_byte, to_owned_bytes};
use vstd::prelude::*;
use vstd::slice::slice_subrange;
use vstd::string::StringSliceAdditionalSpecFns;

verus! {

/// The last component of a path: what follows its last separator. The path
/// is read literally: behind a trailing separator the name is empty, and `.`
/// and `..` are names like any other.
pub open spec fn file_name_of(path: Seq<u8>) -> Seq<u8> {
    match last_byte(path, 47) {
        Some(k) => path.skip(k + 1),
        None => path,
    }
}

/// A file name without its extension: what stands before its last dot,
/// unless that dot is its first byte.
pub open spec fn name_stem(name: Seq<u8>) -> Seq<u8> {
    match last_byte(name, 46) {
        Some(k) => if k > 0 {
            name.subrange(0, k)
        } else {
            name
        },
        None => name,
    }
}

/// The stem of a path's file name, or `output` where that stem is empty. The
/// path is read literally: one that ends in a separator has the stem
/// `output`, and the name `..` has the stem `.`.
pub open spec fn stem_of(path: Seq<u8>) -> Seq<u8> {
    let stem = name_stem(file_name_of(path));
    if stem.len() == 0 {
        "output".spec_bytes()
    } else {
        stem
    }
}

/// The directory that holds a path: what stands before its last separator;
/// the root where that separator comes first, and `.` where there is none.
/// The path is read literally: a trailing separator is a separator like any
/// other, so that what stands before it is the parent.
pub open spec fn parent_of(path: Seq<u8>) -> Seq<u8> {
    match last_byte(path, 47) {
        Some(k) => if k == 0 {
            seq![47u8]
        } else {
            path.subrange(0, k)
        },
        None => seq![46u8],
    }
}

/// `name` inside `dir`.
pub open spec fn joined(dir: Seq<u8>, name: Seq<u8>) -> Seq<u8> {
    if dir.len() == 0 {
        name
    } else if dir.last() == 47 {
        dir + name
    } else {
        dir + seq![47u8] + name
    }
}

/// The directory that receives a batch's outputs: `transcoded` inside the
/// chosen directory, or beside the first input where none was chosen.
pub open spec fn batch_dir_of(chosen: Option<Seq<u8>>, first_input: Seq<u8>) -> Seq<u8> {
    joined(
        match chosen {
            Some(d) => d,
            None => parent_of(first_input),
        },
        "transcoded".spec_bytes(),
    )
}

/// The output path for an input: the input's stem, a dot and the configured
/// container as the extension, inside the batch's directory.
pub open spec fn output_path_of(dir: Seq<u8>, input: Seq<u8>, container: Seq<u8>) -> Seq<u8> {
    joined(dir, stem_of(input) + seq![46u8] + container)
}

/// Gives the stem of a path's file name.
pub fn file_stem(path: &[u8]) -> (r: Vec<u8>)
    ensures
        r@ == stem_of(path@),
{
    let n = path.len();
    let name = match rfind_byte(path, 47) {
        Some(k) => slice_subrange(path, k + 1, n),
        None => path,
    };
    proof {
        match last_byte(path@, 47) {
            Some(k) => {
                assert(name@ =~= path@.skip(k + 1));
            },
            None => {},
        }
    }
    let stem = match rfind_byte(name, 46) {
        Some(k) => if k > 0 {
            slice_subrange(name, 0, k)
        } else {
            name
        },
        None => name,
    };
    if stem.len() == 0 {
        to_owned_bytes("output".as_bytes())
    } else {
        to_owned_bytes(stem)
    }
}

/// Gives the directory that holds a path.
pub fn parent(path: &[u8]) -> (r: Vec<u8>)
    ensures
        r@ == parent_of(path@),
{
    match rfind_byte(path, 47) {
        Some(k) => {
            if k == 0 {
                let mut out: Vec<u8> = Vec::new();
                out.push(47);
                proof {
                    assert(out@ =~= seq![47u8]);
                }
                out
            } else {
                to_owned_bytes(slice_subrange(path, 0, k))
            }
        },
        None => {
            let mut out: Vec<u8> = Vec::new();
            out.push(46);
            proof {
                assert(out@ =~= seq![46u8]);
            }
            out
        },
    }
}

/// Puts `name` inside `dir`.
pub fn join(dir: &[u8], name: &[u8]) -> (r: Vec<u8>)
    ensures
        r@ == joined(dir@, name@),
{
    let mut out: Vec<u8> = Vec::new();
    if dir.len() > 0 {
        append_bytes(&mut out, dir);
        if dir[dir.len() - 1] != 47 {
            out.push(47);
        }
    }
    append_bytes(&mut out, name);
    proof {
        assert(out@ =~= joined(dir@, name@));
    }
    out
}

/// Gives the directory that receives a batch's outputs.
pub fn batch_dir(chosen: Option<&[u8]>, first_input: &[u8]) -> (r: Vec<u8>)
    ensures
        r@ == batch_dir_of(
            match chosen {
                Some(d) => Some(d@),
                None => None,
            },
            first_input@,
        ),
{
    match chosen {
        Some(d) => join(d, "transcoded".as_bytes()),
        None => {
            let base = parent(first_input);
            join(base.as_slice(), "transcoded".as_bytes())
        },
    }
}

/// Gives the output path for an input.
pub fn output_path(dir: &[u8], input: &[u8], container: &[u8]) -> (r: Vec<u8>)
    ensures
        r@ == output_path_of(dir@, input@, container@),
{
    let mut name = file_stem(input);
    name.push(46);
    append_bytes(&mut name, container);
    join(dir, name.as_slice())
}

} // verus!
