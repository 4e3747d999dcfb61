//! A small numeric utility library: wrapping 64-bit addition, Fibonacci
//! numbers, sorting of 32-bit integer vectors, and a running-total
//! `Calculator`, each with a machine-checked contract.

mod arith;
mod calculator;
mod sort;

pub use crate::arith::add;
pub use crate::arith::fibonacci;
pub use crate::arith::lemma_wrap_add_commutes;
pub use crate::arith::lemma_wrap_add_zero;
pub use crate::arith::pow2_64;
pub use crate::arith::spec_fib;
pub use crate::arith::wrap_add;
pub use crate::calculator::calc_repr;
pub use crate::calculator::dec_digits;
pub use crate::calculator::digit_char;
pub use crate::calculator::Calculator;
pub use crate::sort::lemma_sorted_permutation_equal;
pub use crate::sort::sort_numbers;
pub use crate::sort::sorted;
