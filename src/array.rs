//! Moving elements between plain arrays and vectors.
use vstd::prelude::*;

verus! {

/// Relies on std's `From<[X; N]> for Vec<X>`: the array's elements, moved in
/// order.
#[verifier::external_body]
pub(crate) fn array_into_vec<X, const N: usize>(a: [X; N]) -> (r: Vec<X>)
    ensures
        r@ == a@,
{
    Vec::from(a)
}

/// Relies on std's `TryFrom<Vec<X>> for [X; N]`: it succeeds exactly when the
/// length is `N`, and hands the vector back otherwise.
#[verifier::external_body]
fn try_vec_into_array<X, const N: usize>(v: Vec<X>) -> (r: Result<[X; N], Vec<X>>)
    ensures
        r is Ok <==> v@.len() == N,
        r matches Ok(a) ==> a@ == v@,
        r matches Err(e) ==> e@ == v@,
{
    <[X; N]>::try_from(v)
}

/// The elements of `v`, moved in order into an array of the same length.
pub(crate) fn array_from_vec<X, const N: usize>(v: Vec<X>) -> (r: [X; N])
    requires
        v@.len() == N,
    ensures
        r@ == v@,
{
    match try_vec_into_array(v) {
        Ok(a) => a,
        Err(_) => vstd::pervasive::unreached(),
    }
}

} // verus!
