//! What the search needs to know of a candidate file: whether its name hides
//! it, and whether its content is binary.

use vstd::prelude::*;
use vstd::string::StrSliceExecFns;
use crate::order::{rank_paths, Rank};

verus! {

/// The name of the build directory, which is passed over like a hidden one.
pub open spec fn build_dir_name() -> Seq<char> {
    seq!['t', 'a', 'r', 'g', 'e', 't']
}

/// Whether a file name marks its entry as hidden: it starts with a dot, or
/// it is the build directory.
pub open spec fn hidden_name(name: Seq<char>) -> bool {
    (name.len() > 0 && name[0] == '.') || name == build_dir_name()
}

/// Whether the entry with the given file name is passed over. A name that
/// is not valid text, given as `None`, hides nothing.
pub fn is_hidden(name: Option<&str>) -> (r: bool)
    ensures
        r == match name {
            Some(s) => hidden_name(s@),
            None => false,
        },
{
    match name {
        None => false,
        Some(s) => {
            proof {
                reveal_strlit("target");
            }
            assert("target"@ =~= build_dir_name());
            if !s.is_empty() && s.get_char(0) == '.' {
                true
            } else {
                rank_paths(s, "target") == Rank::Same
            }
        },
    }
}

/// How many leading bytes of a file are looked at.
pub const BINARY_PROBE_LEN: usize = 1024;

/// Whether a zero byte stands among the first `BINARY_PROBE_LEN` bytes.
pub open spec fn has_early_zero(head: Seq<u8>) -> bool {
    exists|i: int| 0 <= i < head.len() && i < BINARY_PROBE_LEN && head[i] == 0
}

/// Whether content that starts with `head` counts as binary: it does where
/// a zero byte stands among its first `BINARY_PROBE_LEN` bytes.
pub fn is_binary(head: &[u8]) -> (r: bool)
    ensures
        r == has_early_zero(head@),
{
    let mut i: usize = 0;
    while i < head.len() && i < BINARY_PROBE_LEN
        invariant
            i <= head.len(),
            i <= BINARY_PROBE_LEN,
            forall|j: int| 0 <= j < i ==> head@[j] != 0,
        decreases head.len() - i,
    {
        if head[i] == 0 {
            return true;
        }
        i = i + 1;
    }
    false
}

} // verus!
