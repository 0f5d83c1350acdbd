//! Operations on byte slices and on bytes that are either borrowed or owned.

use std::borrow::Cow;
use vstd::prelude::*;
use vstd::slice::slice_to_vec;

verus! {

/// Compares two byte slices.
pub fn bytes_eq(a: &[u8], b: &[u8]) -> (r: bool)
    ensures
        r == (a@ == b@),
{
    if a.len() != b.len() {
        return false;
    }
    let n: usize = a.len();
    let mut i: usize = 0;
    while i < n
        invariant
            n == a@.len() == b@.len(),
            i <= n,
            forall|j: int| 0 <= j < i ==> a@[j] == b@[j],
        decreases n - i,
    {
        if a[i] != b[i] {
            return false;
        }
        i += 1;
    }
    assert(a@ =~= b@);
    true
}

/// The bytes of `cow`, wherever they are held.
pub fn cow_slice<'b>(cow: &'b Cow<'_, [u8]>) -> (r: &'b [u8])
    ensures
        r@ == cow@,
{
    match cow {
        Cow::Borrowed(s) => s,
        Cow::Owned(v) => v.as_slice(),
    }
}

/// The bytes of `cow` as a vector, copied only if they are borrowed.
pub fn cow_into_vec(cow: Cow<'_, [u8]>) -> (r: Vec<u8>)
    ensures
        r@ == cow@,
{
    match cow {
        Cow::Borrowed(s) => slice_to_vec(s),
        Cow::Owned(v) => v,
    }
}

/// Turns `cow` into its owned form, copying borrowed bytes, and gives access to the vector.
pub fn cow_to_mut<'b>(cow: &'b mut Cow<'_, [u8]>) -> (r: &'b mut Vec<u8>)
    ensures
        r@ == old(cow)@,
        final(cow)@ == final(r)@,
        *final(cow) is Owned,
{
    if let Cow::Borrowed(s) = cow {
        *cow = Cow::Owned(slice_to_vec(s));
    }
    match cow {
        Cow::Owned(v) => v,
        Cow::Borrowed(_) => vstd::pervasive::unreached(),
    }
}

} // verus!
