//! The zigzag transform on mathematical integers, and its laws.
use vstd::arithmetic::power2::{lemma_pow2_unfold, pow2};
use vstd::prelude::*;

verus! {

/// The zigzag image of an integer: `0, -1, 1, -2, 2, ...` go to
/// `0, 1, 2, 3, 4, ...`.
pub open spec fn zigzag(x: int) -> int {
    if x >= 0 {
        2 * x
    } else {
        -2 * x - 1
    }
}

/// The inverse of `zigzag`: even numbers come from non-negative integers,
/// odd numbers from negative ones.
pub open spec fn unzigzag(u: int) -> int {
    if u % 2 == 0 {
        u / 2
    } else {
        -((u + 1) / 2)
    }
}

/// `x` is representable in two's complement with `n` bits.
pub open spec fn signed_fits(n: nat, x: int) -> bool {
    n >= 1 && -pow2((n - 1) as nat) <= x < pow2((n - 1) as nat)
}

/// `u` is representable as an unsigned integer with `n` bits.
pub open spec fn unsigned_fits(n: nat, u: int) -> bool {
    0 <= u < pow2(n)
}

/// Zero is its own image and its own preimage.
pub proof fn lemma_zero_fixed()
    ensures
        zigzag(0) == 0,
        unzigzag(0) == 0,
{
}

/// `unzigzag` undoes `zigzag` on every integer.
pub proof fn lemma_unzigzag_zigzag(x: int)
    ensures
        unzigzag(zigzag(x)) == x,
{
}

/// `zigzag` undoes `unzigzag` on every non-negative integer.
pub proof fn lemma_zigzag_unzigzag(u: int)
    requires
        u >= 0,
    ensures
        zigzag(unzigzag(u)) == u,
{
}

/// For every width `n`, `zigzag` maps the signed `n`-bit integers one to one
/// onto the unsigned `n`-bit integers, and `unzigzag` maps them back.
pub proof fn lemma_zigzag_bijective(n: nat)
    requires
        n >= 1,
    ensures
        forall|x: int| signed_fits(n, x) ==> #[trigger] unsigned_fits(n, zigzag(x)),
        forall|u: int|
            unsigned_fits(n, u) ==> #[trigger] signed_fits(n, unzigzag(u)) && zigzag(unzigzag(u))
                == u,
        forall|x: int, y: int|
            signed_fits(n, x) && signed_fits(n, y) && #[trigger] zigzag(x) == #[trigger] zigzag(y)
                ==> x == y,
{
    lemma_pow2_unfold(n);
    assert forall|x: int, y: int|
        signed_fits(n, x) && signed_fits(n, y) && #[trigger] zigzag(x) == #[trigger] zigzag(
            y,
        ) implies x == y by {
        lemma_unzigzag_zigzag(x);
        lemma_unzigzag_zigzag(y);
    }
}

} // verus!
