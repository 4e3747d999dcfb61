//! A calculator object holding a running total of 64-bit unsigned additions.

use vstd::prelude::*;

use crate::arith::wrap_add;
use vstd::string::StringExecFns;

verus! {

/// The character for a single decimal digit.
pub open spec fn digit_char(d: nat) -> char {
    if d == 0 {
        '0'
    } else if d == 1 {
        '1'
    } else if d == 2 {
        '2'
    } else if d == 3 {
        '3'
    } else if d == 4 {
        '4'
    } else if d == 5 {
        '5'
    } else if d == 6 {
        '6'
    } else if d == 7 {
        '7'
    } else if d == 8 {
        '8'
    } else {
        '9'
    }
}

/// The decimal rendering of `n`, most significant digit first, with no
/// leading zeros (zero itself renders as a single digit).
pub open spec fn dec_digits(n: nat) -> Seq<char>
    decreases n,
{
    if n < 10 {
        seq![digit_char(n)]
    } else {
        dec_digits(n / 10) + seq![digit_char(n % 10)]
    }
}

/// The textual representation of a calculator holding `value`.
pub open spec fn calc_repr(value: u64) -> Seq<char> {
    "Calculator(value="@ + dec_digits(value as nat) + ")"@
}

/// The digit characters of `s` in reverse order: the digit pushed last
/// comes first.
spec fn digit_chars_rev(s: Seq<u64>) -> Seq<char>
    decreases s.len(),
{
    if s.len() == 0 {
        Seq::empty()
    } else {
        digit_chars_rev(s.drop_first()) + seq![digit_char(s.first() as nat)]
    }
}

proof fn lemma_digit_chars_rev_push(s: Seq<u64>, d: u64)
    ensures
        digit_chars_rev(s.push(d)) == seq![digit_char(d as nat)] + digit_chars_rev(s),
    decreases s.len(),
{
    if s.len() == 0 {
        assert(s.push(d).drop_first() =~= s);
        assert(digit_chars_rev(s.push(d)) =~= seq![digit_char(d as nat)] + digit_chars_rev(s));
    } else {
        assert(s.push(d).drop_first() =~= s.drop_first().push(d));
        lemma_digit_chars_rev_push(s.drop_first(), d);
        assert(digit_chars_rev(s.push(d)) =~= seq![digit_char(d as nat)] + digit_chars_rev(s));
    }
}

/// Returns the single-character string for the decimal digit `d`.
fn digit_str(d: u64) -> (r: &'static str)
    requires
        d < 10,
    ensures
        r@ == seq![digit_char(d as nat)],
{
    let r: &'static str = if d == 0 {
        "0"
    } else if d == 1 {
        "1"
    } else if d == 2 {
        "2"
    } else if d == 3 {
        "3"
    } else if d == 4 {
        "4"
    } else if d == 5 {
        "5"
    } else if d == 6 {
        "6"
    } else if d == 7 {
        "7"
    } else if d == 8 {
        "8"
    } else {
        "9"
    };
    proof {
        reveal_strlit("0");
        reveal_strlit("1");
        reveal_strlit("2");
        reveal_strlit("3");
        reveal_strlit("4");
        reveal_strlit("5");
        reveal_strlit("6");
        reveal_strlit("7");
        reveal_strlit("8");
        reveal_strlit("9");
        assert(r@ =~= seq![digit_char(d as nat)]);
    }
    r
}

/// Renders `v` in decimal.
fn u64_to_decimal(v: u64) -> (r: String)
    ensures
        r@ == dec_digits(v as nat),
{
    let mut digits: Vec<u64> = Vec::new();
    let mut n = v;
    while n >= 10
        invariant
            dec_digits(v as nat) == dec_digits(n as nat) + digit_chars_rev(digits@),
            forall|k: int| 0 <= k < digits@.len() ==> digits@[k] < 10,
        decreases n,
    {
        let d = n % 10;
        proof {
            lemma_digit_chars_rev_push(digits@, d);
            assert(dec_digits((n / 10) as nat) + (seq![digit_char(d as nat)]
                + digit_chars_rev(digits@)) =~= (dec_digits((n / 10) as nat) + seq![
                digit_char(d as nat),
            ]) + digit_chars_rev(digits@));
        }
        digits.push(d);
        n = n / 10;
    }
    proof {
        lemma_digit_chars_rev_push(digits@, n);
        assert(dec_digits(n as nat) =~= seq![digit_char(n as nat)]);
        assert(seq![digit_char(n as nat)] + digit_chars_rev(digits@) =~= digit_chars_rev(
            digits@.push(n),
        ));
    }
    digits.push(n);
    let ghost all = digits@;
    let mut r = String::new();
    let mut i = digits.len();
    while i > 0
        invariant
            i <= digits@.len(),
            digits@ == all,
            forall|k: int| 0 <= k < digits@.len() ==> digits@[k] < 10,
            r@ == digit_chars_rev(digits@.skip(i as int)),
        decreases i,
    {
        i -= 1;
        proof {
            assert(digits@.skip(i as int).drop_first() =~= digits@.skip(i as int + 1));
            assert(digit_chars_rev(digits@.skip(i as int)) == digit_chars_rev(
                digits@.skip(i as int + 1),
            ) + seq![digit_char(digits@[i as int] as nat)]);
        }
        let s = digit_str(digits[i]);
        r.append(s);
    }
    proof {
        assert(digits@.skip(0) =~= digits@);
    }
    r
}

/// A running total: created with an initial value, it is changed only by
/// its `add` method, so it always holds the sum modulo 2^64 of the initial
/// value and every amount added since.
pub struct Calculator {
    value: u64,
}

impl Calculator {
    /// The current running total.
    pub closed spec fn spec_value(self) -> u64 {
        self.value
    }

    /// Creates a calculator whose running total starts at `initial`.
    pub fn new(initial: u64) -> (c: Calculator)
        ensures
            c.spec_value() == initial,
    {
        Calculator { value: initial }
    }

    /// Adds `other` to the running total, wrapping modulo 2^64, and returns
    /// the new total.
    pub fn add(&mut self, other: u64) -> (r: u64)
        ensures
            final(self).spec_value() == wrap_add(old(self).spec_value(), other),
            r == final(self).spec_value(),
    {
        self.value = crate::arith::add(self.value, other);
        self.value
    }

    /// Returns the current running total without changing it.
    pub fn get_value(&self) -> (r: u64)
        ensures
            r == self.spec_value(),
    {
        self.value
    }

    /// Returns the textual representation `Calculator(value=<N>)`, where
    /// `<N>` is the current total in decimal.
    pub fn repr(&self) -> (r: String)
        ensures
            r@ == calc_repr(self.spec_value()),
    {
        let mut r = String::new();
        r.append("Calculator(value=");
        let digits = u64_to_decimal(self.value);
        r.append(digits.as_str());
        r.append(")");
        proof {
            assert(r@ =~= calc_repr(self.value));
        }
        r
    }
}

} // verus!
