//! Wrapping 64-bit addition and Fibonacci numbers.

use vstd::prelude::*;

verus! {

/// The modulus of 64-bit unsigned arithmetic.
pub open spec fn pow2_64() -> int {
    0x1_0000_0000_0000_0000
}

/// The sum of `a` and `b` modulo 2^64.
pub open spec fn wrap_add(a: u64, b: u64) -> u64 {
    ((a + b) % pow2_64()) as u64
}

/// Returns the sum of `left` and `right` modulo 2^64; overflow wraps
/// silently rather than failing.
pub fn add(left: u64, right: u64) -> (r: u64)
    ensures
        r == wrap_add(left, right),
{
    proof {
        lemma_wrapping_add_is_wrap_add(left, right);
    }
    left.wrapping_add(right)
}

proof fn lemma_wrapping_add_is_wrap_add(a: u64, b: u64)
    ensures
        vstd::wrapping::u64_specs::wrapping_add(a, b) == wrap_add(a, b),
{
    if a + b <= u64::MAX {
        vstd::arithmetic::div_mod::lemma_small_mod((a + b) as nat, pow2_64() as nat);
    } else {
        vstd::arithmetic::div_mod::lemma_mod_sub_multiples_vanish(a + b, pow2_64());
        vstd::arithmetic::div_mod::lemma_small_mod((a + b - pow2_64()) as nat, pow2_64() as nat);
    }
}

/// Wrapping addition is commutative.
pub proof fn lemma_wrap_add_commutes(a: u64, b: u64)
    ensures
        wrap_add(a, b) == wrap_add(b, a),
{
}

/// Zero is the identity of wrapping addition.
pub proof fn lemma_wrap_add_zero(a: u64)
    ensures
        wrap_add(a, 0) == a,
{
    vstd::arithmetic::div_mod::lemma_small_mod(a as nat, pow2_64() as nat);
}

/// The Fibonacci sequence: 0, 1, 1, 2, 3, 5, ...
pub open spec fn spec_fib(n: nat) -> nat
    decreases n,
{
    if n == 0 {
        0
    } else if n == 1 {
        1
    } else {
        spec_fib((n - 1) as nat) + spec_fib((n - 2) as nat)
    }
}

/// Returns the `n`-th Fibonacci number modulo 2^64; once the true value
/// outgrows 64 bits the additions wrap, matching `add`.
pub fn fibonacci(n: u64) -> (r: u64)
    ensures
        r == spec_fib(n as nat) as int % pow2_64(),
    decreases n,
{
    if n == 0 {
        proof {
            vstd::arithmetic::div_mod::lemma_small_mod(0, pow2_64() as nat);
        }
        0
    } else if n == 1 {
        proof {
            vstd::arithmetic::div_mod::lemma_small_mod(1, pow2_64() as nat);
        }
        1
    } else {
        let a = fibonacci(n - 1);
        let b = fibonacci(n - 2);
        proof {
            vstd::arithmetic::div_mod::lemma_add_mod_noop(
                spec_fib((n - 1) as nat) as int,
                spec_fib((n - 2) as nat) as int,
                pow2_64(),
            );
        }
        crate::arith::add(a, b)
    }
}

} // verus!
