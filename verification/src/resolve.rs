//! Where the encoder and the prober are looked for: first in the packaged
//! bundle, then beside the running program, then on the search path.

use crate::paths::{join, joined, parent, parent_of};
use crate::text::{append_bytes, to_owned_bytes};
use vstd::prelude::*;
use vstd::string::StringSliceAdditionalSpecFns;

verus! {

/// The two outside programs.
#[derive(Clone, Copy, Debug, PartialEq, Eq, Structural)]
pub enum Tool {
    /// Does the transcoding and the loudness measurement.
    Encoder,
    /// Tells the duration of an input.
    Prober,
}

/// File name of a tool.
pub open spec fn tool_name_of(tool: Tool) -> Seq<u8> {
    match tool {
        Tool::Encoder => "ffmpeg".spec_bytes(),
        Tool::Prober => "ffprobe".spec_bytes(),
    }
}

/// Path of a tool inside the packaged bundle.
pub open spec fn bundled_path_of(tool: Tool) -> Seq<u8> {
    "/app/bin/".spec_bytes() + tool_name_of(tool)
}

/// Path of a tool beside the running program.
pub open spec fn sibling_path_of(program: Seq<u8>, tool: Tool) -> Seq<u8> {
    joined(parent_of(program), tool_name_of(tool))
}

/// The path to run a tool by: the bundled one where it exists, else the one
/// beside the running program where the program's path is known and that
/// file exists, else the bare name, which leaves the search to the system.
pub open spec fn resolved(
    tool: Tool,
    bundled_exists: bool,
    program: Option<Seq<u8>>,
    sibling_exists: bool,
) -> Seq<u8> {
    if bundled_exists {
        bundled_path_of(tool)
    } else {
        match program {
            Some(p) => if sibling_exists {
                sibling_path_of(p, tool)
            } else {
                tool_name_of(tool)
            },
            None => tool_name_of(tool),
        }
    }
}

/// Gives the file name of a tool.
pub fn tool_name(tool: Tool) -> (r: &'static [u8])
    ensures
        r@ == tool_name_of(tool),
{
    match tool {
        Tool::Encoder => "ffmpeg".as_bytes(),
        Tool::Prober => "ffprobe".as_bytes(),
    }
}

/// Gives the path of a tool inside the packaged bundle.
pub fn bundled_path(tool: Tool) -> (r: Vec<u8>)
    ensures
        r@ == bundled_path_of(tool),
{
    let mut out = to_owned_bytes("/app/bin/".as_bytes());
    append_bytes(&mut out, tool_name(tool));
    out
}

/// Gives the path of a tool beside the running program.
pub fn sibling_path(program: &[u8], tool: Tool) -> (r: Vec<u8>)
    ensures
        r@ == sibling_path_of(program@, tool),
{
    let dir = parent(program);
    join(dir.as_slice(), tool_name(tool))
}

/// Chooses the path to run a tool by, given which candidates exist. Always
/// gives a path to try.
pub fn resolve_binary(
    tool: Tool,
    bundled_exists: bool,
    program: Option<&[u8]>,
    sibling_exists: bool,
) -> (r: Vec<u8>)
    ensures
        r@ == resolved(
            tool,
            bundled_exists,
            match program {
                Some(p) => Some(p@),
                None => None,
            },
            sibling_exists,
        ),
        r@.len() > 0,
{
    proof {
        lemma_tool_names_not_empty(tool);
    }
    if bundled_exists {
        return bundled_path(tool);
    }
    match program {
        Some(p) => {
            if sibling_exists {
                sibling_path(p, tool)
            } else {
                to_owned_bytes(tool_name(tool))
            }
        },
        None => to_owned_bytes(tool_name(tool)),
    }
}

/// A tool's name has at least one byte.
pub proof fn lemma_tool_names_not_empty(tool: Tool)
    ensures
        tool_name_of(tool).len() > 0,
{
    broadcast use vstd::string::is_ascii_spec_bytes;

    reveal_strlit("ffmpeg");
    reveal_strlit("ffprobe");
    assert(vstd::string::is_ascii("ffmpeg"));
    assert(vstd::string::is_ascii("ffprobe"));
}

} // verus!
