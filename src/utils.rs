//! Finding where the content of a zero-padded byte array ends.

use vstd::prelude::*;

verus! {

/// Byte size threshold for switching between linear and binary search.
const THRESHOLD: usize = 16;

/// `r` is a place where nonzero bytes stop: the byte before it, if any, is
/// nonzero and the byte at it, if any, is zero.
pub open spec fn is_boundary(b: Seq<u8>, r: int) -> bool {
    &&& 0 <= r <= b.len()
    &&& (r == 0 || b[r - 1] != 0)
    &&& (r == b.len() || b[r] == 0)
}

/// No nonzero byte follows a zero byte.
pub open spec fn zero_terminated(b: Seq<u8>) -> bool {
    forall|i: int, j: int| 0 <= i < j < b.len() && #[trigger] b[i] == 0 ==> #[trigger] b[j] == 0
}

/// Linear search, from the midpoint of `lo..hi`, for a boundary between `lo` and `hi`,
/// given that `lo` and `hi` are boundaries seen from outside the range.
fn linear_search(bytes: &[u8], lo: usize, hi: usize) -> (r: usize)
    requires
        lo <= hi <= bytes@.len(),
    ensures
        lo <= r <= hi,
        r == lo || bytes@[r - 1] != 0,
        r == hi || bytes@[r as int] == 0,
{
    if lo == hi {
        return lo;
    }
    let midpoint = lo + (hi - lo) / 2;
    if bytes[midpoint] == 0 {
        // Search left from the midpoint.
        let mut i: usize = midpoint;
        while i > lo
            invariant
                lo <= i <= midpoint < hi <= bytes@.len(),
                bytes@[i as int] == 0,
            decreases i,
        {
            if bytes[i - 1] != 0 {
                return i;
            }
            i = i - 1;
        }
        lo
    } else {
        // Search right from the midpoint.
        let mut i: usize = midpoint + 1;
        while i < hi
            invariant
                lo <= midpoint < i <= hi <= bytes@.len(),
                bytes@[i - 1] != 0,
            decreases hi - i,
        {
            if bytes[i] == 0 {
                return i;
            }
            i = i + 1;
        }
        hi
    }
}

/// Binary search for a boundary, finished by a linear search on short ranges.
fn binary_search<const N: usize>(bytes: &[u8; N]) -> (r: usize)
    ensures
        is_boundary(bytes@, r as int),
{
    let mut left: usize = 0;
    let mut right: usize = N;
    while left < right
        invariant
            left <= right <= N == bytes@.len(),
            left == 0 || bytes@[left - 1] != 0,
            right == N || bytes@[right as int] == 0,
        decreases right - left,
    {
        if right - left <= THRESHOLD {
            return linear_search(bytes.as_slice(), left, right);
        }
        let mid = left + (right - left) / 2;
        if bytes[mid] == 0 {
            right = mid;
        } else {
            left = mid + 1;
        }
    }
    left
}

/// Where the content of `bytes` ends: a boundary between nonzero and zero
/// bytes; on a zero-terminated array, the number of leading nonzero bytes.
///
/// O(log N)
pub fn len<const N: usize>(bytes: &[u8; N]) -> (r: usize)
    ensures
        is_boundary(bytes@, r as int),
        zero_terminated(bytes@) ==> (forall|i: int| 0 <= i < r ==> bytes@[i] != 0),
        zero_terminated(bytes@) ==> (forall|i: int| r <= i < N ==> bytes@[i] == 0),
{
    let r = if N <= THRESHOLD {
        linear_search(bytes.as_slice(), 0, N)
    } else {
        binary_search(bytes)
    };
    proof {
        if zero_terminated(bytes@) {
            assert forall|i: int| 0 <= i < r implies bytes@[i] != 0 by {
                if bytes@[i] == 0 && i < r - 1 {
                    assert(bytes@[r - 1] == 0);
                }
            }
            assert forall|i: int| r <= i < N implies bytes@[i] == 0 by {
                if i > r {
                    assert(bytes@[r as int] == 0);
                }
            }
        }
    }
    r
}

} // verus!
