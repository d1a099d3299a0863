//! The size of the subgroup over which a trace is laid out: the least power
//! of two that is not below the number of rows.

use vstd::prelude::*;

verus! {

/// Whether `n` is one of 1, 2, 4, 8, ...
pub open spec fn is_power_of_two(n: nat) -> bool
    decreases n,
{
    n == 1 || (n >= 2 && n % 2 == 0 && is_power_of_two(n / 2))
}

/// Whether `p` is the least power of two that is not below `n`.
pub open spec fn is_next_pow2(n: nat, p: nat) -> bool {
    &&& is_power_of_two(p)
    &&& n <= p
    &&& forall|q: nat| is_power_of_two(q) && n <= q ==> p <= q
}

/// The least power of two that is not below `n`.
pub open spec fn next_pow2(n: nat) -> nat {
    choose|p: nat| is_next_pow2(n, p)
}

/// Between a power of two and its double lies no power of two.
pub proof fn lemma_powers_apart(a: nat, b: nat)
    requires
        is_power_of_two(a),
        is_power_of_two(b),
        a < b,
    ensures
        2 * a <= b,
    decreases b,
{
    if a > 1 {
        lemma_powers_apart(a / 2, b / 2);
    }
}

/// A power of two that is not below `n`, and whose half is, is the least
/// such power.
pub proof fn lemma_next_pow2_found(n: nat, p: nat)
    requires
        is_power_of_two(p),
        n <= p,
        p == 1 || p / 2 < n,
    ensures
        is_next_pow2(n, p),
        next_pow2(n) == p,
{
    assert forall|q: nat| is_power_of_two(q) && n <= q implies p <= q by {
        if q < p {
            lemma_powers_apart(q, p);
        }
    }
    assert(is_next_pow2(n, p));
    let chosen = next_pow2(n);
    assert(is_next_pow2(n, chosen));
}

proof fn least_power(n: nat) -> (p: nat)
    ensures
        is_power_of_two(p),
        n <= p,
        p == 1 || p / 2 < n,
    decreases n,
{
    if n <= 1 {
        1
    } else {
        let half = least_power((n + 1) / 2);
        assert(is_power_of_two(2 * half)) by {
            assert((2 * half) / 2 == half);
        }
        2 * half
    }
}

/// Every number has its next power of two, and [`next_pow2`] is it.
pub proof fn lemma_next_pow2(n: nat)
    ensures
        is_next_pow2(n, next_pow2(n)),
        next_pow2(n) >= 1,
        n >= 1 ==> next_pow2(n) < 2 * n,
{
    let p = least_power(n);
    lemma_next_pow2_found(n, p);
}

/// A power of two is its own next power of two.
pub proof fn lemma_next_pow2_of_power(n: nat)
    requires
        is_power_of_two(n),
    ensures
        next_pow2(n) == n,
{
    lemma_next_pow2(n);
}

/// Rounding up twice is rounding up once.
pub proof fn lemma_next_pow2_idempotent(n: nat)
    ensures
        next_pow2(next_pow2(n)) == next_pow2(n),
{
    lemma_next_pow2(n);
    lemma_next_pow2_of_power(next_pow2(n));
}

/// Of a number that is no power of two, the next power of two is the least
/// power of two above it.
pub proof fn lemma_next_pow2_above(n: nat)
    requires
        !is_power_of_two(n),
    ensures
        n < next_pow2(n),
        is_power_of_two(next_pow2(n)),
        forall|q: nat| is_power_of_two(q) && n < q ==> next_pow2(n) <= q,
{
    lemma_next_pow2(n);
}

/// The least power of two that is not below `n`, if a `usize` can hold it.
pub fn checked_next_pow2(n: usize) -> (found: Option<usize>)
    ensures
        match found {
            Some(p) => p == next_pow2(n as nat),
            None => next_pow2(n as nat) > usize::MAX,
        },
{
    let mut p: usize = 1;
    while p < n
        invariant
            p >= 1,
            is_power_of_two(p as nat),
            p == 1 || p / 2 < n,
        decreases usize::MAX - p,
    {
        if p > usize::MAX / 2 {
            proof {
                lemma_next_pow2(n as nat);
                lemma_powers_apart(p as nat, next_pow2(n as nat));
            }
            return None;
        }
        assert(is_power_of_two((2 * p) as nat)) by {
            assert((2 * p) / 2 == p);
        }
        p = 2 * p;
    }
    proof {
        lemma_next_pow2_found(n as nat, p as nat);
    }
    Some(p)
}

/// The size of the subgroup for a circuit of `n` rows: the least power of two
/// that is not below `n`, and `n` itself where `n` is a power of two.
pub fn get_circuit_subgroup_size(n: usize) -> (size: usize)
    requires
        next_pow2(n as nat) <= usize::MAX,
    ensures
        size == next_pow2(n as nat),
{
    checked_next_pow2(n).unwrap()
}

} // verus!
