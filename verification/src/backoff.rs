use vstd::prelude::*;

verus! {

/// `2^n`, the growth factor of the exponential backoff policy.
pub open spec fn spec_pow2(n: nat) -> nat
    decreases n,
{
    if n == 0 {
        1
    } else {
        2 * spec_pow2((n - 1) as nat)
    }
}

/// The backoff policy: the delay before retry number `n` (counting from 0)
/// is `base * 2^n` milliseconds.
pub open spec fn spec_delay(base: u64, n: nat) -> nat {
    (base * spec_pow2(n)) as nat
}

proof fn lemma_pow2_positive(n: nat)
    ensures
        spec_pow2(n) >= 1,
    decreases n,
{
    if n > 0 {
        lemma_pow2_positive((n - 1) as nat);
    }
}

/// `2^m <= 2^n` whenever `m <= n`.
proof fn lemma_pow2_monotonic(m: nat, n: nat)
    requires
        m <= n,
    ensures
        spec_pow2(m) <= spec_pow2(n),
    decreases n,
{
    if m < n {
        lemma_pow2_monotonic(m, (n - 1) as nat);
        lemma_pow2_positive((n - 1) as nat);
    }
}

/// The backoff delay never shrinks as the attempt count grows, and it grows
/// strictly as long as the base delay is not zero.
pub proof fn lemma_delay_monotonic(base: u64, m: nat, n: nat)
    requires
        m <= n,
    ensures
        spec_delay(base, m) <= spec_delay(base, n),
        base > 0 && m < n ==> spec_delay(base, m) < spec_delay(base, n),
{
    lemma_pow2_monotonic(m, n);
    vstd::arithmetic::mul::lemma_mul_inequality(
        spec_pow2(m) as int,
        spec_pow2(n) as int,
        base as int,
    );
    vstd::arithmetic::mul::lemma_mul_is_commutative(base as int, spec_pow2(m) as int);
    vstd::arithmetic::mul::lemma_mul_is_commutative(base as int, spec_pow2(n) as int);
    if base > 0 && m < n {
        lemma_pow2_monotonic((m + 1) as nat, n);
        assert(spec_pow2(m + 1) == 2 * spec_pow2(m));
        lemma_pow2_positive(m);
        assert(spec_pow2(m) < spec_pow2(n));
        vstd::arithmetic::mul::lemma_mul_strict_inequality(
            spec_pow2(m) as int,
            spec_pow2(n) as int,
            base as int,
        );
    }
}

/// `2^n` as a machine integer.
fn pow2_u64(n: u32) -> (r: u64)
    requires
        spec_pow2(n as nat) <= u64::MAX,
    ensures
        r == spec_pow2(n as nat),
{
    let mut acc: u64 = 1;
    let mut i: u32 = 0;
    while i < n
        invariant
            i <= n,
            acc == spec_pow2(i as nat),
            spec_pow2(n as nat) <= u64::MAX,
        decreases n - i,
    {
        proof {
            lemma_pow2_monotonic((i + 1) as nat, n as nat);
        }
        acc = acc * 2;
        i = i + 1;
    }
    acc
}

/// The exact backoff delay `base * 2^n`, for inputs where it fits in a `u64`.
pub fn delay(base: u64, n: u32) -> (r: u64)
    requires
        spec_delay(base, n as nat) <= u64::MAX,
    ensures
        r == spec_delay(base, n as nat),
{
    if base == 0 {
        proof {
            vstd::arithmetic::mul::lemma_mul_basics(spec_pow2(n as nat) as int);
        }
        0
    } else {
        proof {
            lemma_pow2_positive(n as nat);
            vstd::arithmetic::mul::lemma_mul_inequality(
                1,
                base as int,
                spec_pow2(n as nat) as int,
            );
            vstd::arithmetic::mul::lemma_mul_is_commutative(
                base as int,
                spec_pow2(n as nat) as int,
            );
        }
        let p = pow2_u64(n);
        proof {
            vstd::arithmetic::mul::lemma_mul_is_commutative(base as int, p as int);
        }
        base * p
    }
}

/// The backoff delay, clamped to `u64::MAX` when `base * 2^n` does not fit.
/// The growth of the policy is unbounded, so a worker applying it should
/// expect astronomically large values once the attempt count gets high.
pub fn delay_saturating(base: u64, n: u32) -> (r: u64)
    ensures
        spec_delay(base, n as nat) <= u64::MAX ==> r == spec_delay(base, n as nat),
        spec_delay(base, n as nat) > u64::MAX ==> r == u64::MAX,
{
    if base == 0 {
        proof {
            vstd::arithmetic::mul::lemma_mul_basics(spec_pow2(n as nat) as int);
        }
        return 0;
    }
    proof {
        vstd::arithmetic::mul::lemma_mul_basics(base as int);
    }
    let mut acc: u64 = base;
    let mut i: u32 = 0;
    while i < n
        invariant
            i <= n,
            base > 0,
            acc == spec_delay(base, i as nat),
        decreases n - i,
    {
        if acc > u64::MAX / 2 {
            proof {
                // Once one doubling overflows, every later delay overflows too.
                assert(spec_delay(base, (i + 1) as nat) == 2 * spec_delay(base, i as nat)) by {
                    assert(spec_pow2((i + 1) as nat) == 2 * spec_pow2(i as nat));
                    vstd::arithmetic::mul::lemma_mul_is_associative(
                        base as int,
                        2,
                        spec_pow2(i as nat) as int,
                    );
                    vstd::arithmetic::mul::lemma_mul_is_commutative(base as int, 2);
                    vstd::arithmetic::mul::lemma_mul_is_associative(
                        2,
                        base as int,
                        spec_pow2(i as nat) as int,
                    );
                }
                lemma_delay_monotonic(base, (i + 1) as nat, n as nat);
            }
            return u64::MAX;
        }
        proof {
            assert(spec_delay(base, (i + 1) as nat) == 2 * spec_delay(base, i as nat)) by {
                assert(spec_pow2((i + 1) as nat) == 2 * spec_pow2(i as nat));
                vstd::arithmetic::mul::lemma_mul_is_associative(
                    base as int,
                    2,
                    spec_pow2(i as nat) as int,
                );
                vstd::arithmetic::mul::lemma_mul_is_commutative(base as int, 2);
                vstd::arithmetic::mul::lemma_mul_is_associative(
                    2,
                    base as int,
                    spec_pow2(i as nat) as int,
                );
            }
        }
        acc = acc * 2;
        i = i + 1;
    }
    acc
}

} // verus!
