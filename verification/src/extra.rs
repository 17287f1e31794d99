//! Helpers on path strings.

use vstd::prelude::*;
use vstd::utf8::encode_utf8;
use crate::ids::Span;
use crate::text::slice_str;

verus! {

/// The byte that separates the components of a path.
pub const SEPARATOR: u8 = 0x2f;

/// Where the last component of a path starts: behind its last separator, or
/// at its start where it holds none.
pub open spec fn basename_start(path: Seq<u8>) -> int
    decreases path.len(),
{
    if path.len() == 0 {
        0
    } else if path[path.len() - 1] == SEPARATOR {
        path.len() as int
    } else {
        basename_start(path.take(path.len() - 1))
    }
}

/// The last component of a path: what follows its last separator, or all of
/// it where it holds none.
pub open spec fn basename_spec(path: Seq<u8>) -> Seq<u8> {
    path.skip(basename_start(path))
}

/// The last component of a path holds no separator, and what stands before
/// it in the path is empty or ends with a separator.
pub proof fn lemma_basename(path: Seq<u8>)
    ensures
        0 <= basename_start(path) <= path.len(),
        basename_start(path) > 0 ==> path[basename_start(path) - 1] == SEPARATOR,
        forall|i: int| basename_start(path) <= i < path.len() ==> #[trigger] path[i] != SEPARATOR,
        forall|i: int|
            0 <= i < basename_spec(path).len() ==> #[trigger] basename_spec(path)[i] != SEPARATOR,
    decreases path.len(),
{
    if path.len() == 0 {
    } else if path[path.len() - 1] == SEPARATOR {
    } else {
        let front = path.take(path.len() - 1);
        lemma_basename(front);
        assert forall|i: int| basename_start(path) <= i < path.len() implies #[trigger] path[i]
            != SEPARATOR by {
            if i < path.len() - 1 {
                assert(front[i] == path[i]);
            }
        }
    }
}

/// Returns the position at which the last component of a path starts.
pub(crate) fn find_basename(path: &[u8]) -> (start: usize)
    ensures
        start == basename_start(path@),
        start <= path.len(),
        start > 0 ==> path@[start - 1] == SEPARATOR,
{
    let mut start: usize = path.len();
    proof {
        assert(path@.take(start as int) =~= path@);
    }
    while start > 0 && path[start - 1] != SEPARATOR
        invariant
            start <= path.len(),
            basename_start(path@) == basename_start(path@.take(start as int)),
        decreases start,
    {
        proof {
            let front = path@.take(start as int);
            assert(front.take(front.len() - 1) =~= path@.take(start - 1));
        }
        start = start - 1;
    }
    start
}

/// Returns the last component of a path: what follows its last `/`, or the
/// whole path where it holds none.
pub fn basename(path: String) -> (name: String)
    ensures
        encode_utf8(name@) == basename_spec(encode_utf8(path@)),
{
    let text = path.as_str();
    let bytes = text.as_bytes();
    let start = find_basename(bytes);
    let part = slice_str(text, Span { start, end: bytes.len() });
    proof {
        assert(bytes@.skip(start as int) =~= bytes@.subrange(start as int, bytes@.len() as int));
    }
    part.to_owned()
}

} // verus!
