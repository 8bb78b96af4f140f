//! Requests for static files: the path of a request is taken relative to
//! the static directory, and a path with a component that is not a plain
//! name is refused, as `std::path::Path::components` reads a Unix path.

use vstd::prelude::*;

verus! {

/// The segment of `p` that starts at `i` is exactly `..`.
pub open spec fn parent_at(p: Seq<u8>, i: int) -> bool {
    &&& 0 <= i
    &&& i + 2 <= p.len()
    &&& p[i] == 46u8
    &&& p[i + 1] == 46u8
    &&& (i == 0 || p[i - 1] == 47u8)
    &&& (i + 2 == p.len() || p[i + 2] == 47u8)
}

/// A relative path that can leave its directory: it starts at the root
/// (`/`), starts with the segment `.`, or has a segment `..` anywhere.
/// Empty segments and `.` segments after the first are no components.
pub open spec fn path_escapes(p: Seq<u8>) -> bool {
    ||| (p.len() > 0 && p[0] == 47u8)
    ||| (p.len() > 0 && p[0] == 46u8 && (p.len() == 1 || p[1] == 47u8))
    ||| exists|i: int| #[trigger] parent_at(p, i)
}

/// Whether the path of a request (its leading `/` dropped) would leave the
/// static directory; such a request is answered `404`.
pub fn traversal_attempt(uri_path: &[u8]) -> (r: bool)
    requires
        uri_path@.len() >= 1,
    ensures
        r == path_escapes(uri_path@.skip(1)),
{
    let ghost p = uri_path@.skip(1);
    let n = uri_path.len();
    if n >= 2 && uri_path[1] == 47u8 {
        return true;
    }
    if n >= 2 && uri_path[1] == 46u8 && (n == 2 || uri_path[2] == 47u8) {
        return true;
    }
    let mut i: usize = 1;
    while i < n
        invariant
            1 <= i <= n,
            n == uri_path@.len(),
            p == uri_path@.skip(1),
            forall|j: int| 0 <= j < i - 1 ==> !parent_at(p, j),
        decreases n - i,
    {
        if i < n - 1 && uri_path[i] == 46u8 && uri_path[i + 1] == 46u8 && (i == 1 || uri_path[i
            - 1] == 47u8) && (i + 2 == n || uri_path[i + 2] == 47u8) {
            assert(parent_at(p, i - 1));
            return true;
        }
        assert(!parent_at(p, i - 1));
        i = i + 1;
    }
    assert forall|j: int| !parent_at(p, j) by {
        if 0 <= j < n - 1 {
        }
    }
    false
}

} // verus!
