//! Small arithmetic facts shared by the library's proofs.

use vstd::prelude::*;

verus! {

/// The product of two `u64` values always fits in a `u128`.
pub proof fn lemma_u64_mul_fits_u128(x: u64, y: u64)
    ensures
        x as int * y as int <= u128::MAX as int,
{
    vstd::arithmetic::mul::lemma_mul_upper_bound(
        x as int,
        u64::MAX as int,
        y as int,
        u64::MAX as int,
    );
    assert(u64::MAX as int * u64::MAX as int <= u128::MAX as int) by (nonlinear_arith);
}

} // verus!
