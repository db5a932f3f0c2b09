//! Byte slices: comparing, cutting, and integers in network byte order.

use vstd::prelude::*;
use vstd::slice::slice_subrange;

verus! {

/// The two slices hold the same bytes.
pub fn same(x: &[u8], y: &[u8]) -> (r: bool)
    ensures
        r == (x@ == y@),
{
    if x.len() != y.len() {
        return false;
    }
    let mut i: usize = 0;
    while i < x.len()
        invariant
            i <= x@.len() == y@.len(),
            forall|j: int| 0 <= j < i ==> x@[j] == y@[j],
        decreases x@.len() - i,
    {
        if x[i] != y[i] {
            return false;
        }
        i = i + 1;
    }
    assert(x@ =~= y@);
    true
}

/// The bytes from `from` up to `to`.
pub fn cut(b: &[u8], from: usize, to: usize) -> (r: Vec<u8>)
    requires
        from <= to <= b@.len(),
    ensures
        r@ == b@.subrange(from as int, to as int),
{
    vstd::slice::slice_to_vec(slice_subrange(b, from, to))
}

/// A copy of the bytes.
pub fn copy(b: &[u8]) -> (r: Vec<u8>)
    ensures
        r@ == b@,
{
    vstd::slice::slice_to_vec(b)
}

/// Appends the bytes of `b` to `a`.
pub fn append(a: &mut Vec<u8>, b: &[u8])
    ensures
        final(a)@ == old(a)@ + b@,
{
    a.extend_from_slice(b);
    assert(a@ =~= old(a)@ + b@);
}

/// The two runs of bytes in a row.
pub fn cat(a: &[u8], b: &[u8]) -> (r: Vec<u8>)
    ensures
        r@ == a@ + b@,
{
    let mut r = copy(a);
    append(&mut r, b);
    r
}

/// Whether `b` starts with `p`.
pub fn starts_with(b: &[u8], p: &[u8]) -> (r: bool)
    ensures
        r == (p@.len() <= b@.len() && b@.take(p@.len() as int) == p@),
{
    if p.len() > b.len() {
        return false;
    }
    assert(b@.subrange(0, p@.len() as int) =~= b@.take(p@.len() as int));
    same(slice_subrange(b, 0, p.len()), p)
}

} // verus!
