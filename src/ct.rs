//! Constant-time comparison of byte strings.
use vstd::prelude::*;
use subtle::ConstantTimeEq;

verus! {

/// Relies on subtle's `ConstantTimeEq` for slices: the `Choice` is 1
/// exactly when both slices have the same length and the same bytes.
#[verifier::external_body]
pub(crate) fn ct_eq_bytes(a: &[u8], b: &[u8]) -> (r: bool)
    ensures
        r == (a@ == b@),
{
    a.ct_eq(b).unwrap_u8() == 1
}

} // verus!
