//! Guessing utilities: a bounded-integer value type for numbers in the
//! inclusive range 0 to 100, with validated construction, string parsing,
//! total-order comparison, and random generation.

use vstd::prelude::*;

pub mod err;
pub mod text;

use crate::err::{GuessParseError, GuessRangeError};
use crate::text::{
    all_digits, digit_val, digits_val, is_digit, is_int_literal, lemma_digits_val_nonneg,
    lemma_digits_val_push, literal_value, parses_to_i32, trim_spaces, trimmed,
};
use vstd::string::StrSliceExecFns;
use core::cmp::Ordering;
use vstd::pervasive::unreached;
use vstd::std_specs::cmp::PartialOrdSpec;
use rand::Rng;

verus! {

/// A validated guess: an immutable integer value that is always within
/// the inclusive range 0 to 100.
#[derive(PartialEq, Eq, Structural, Debug, Ord)]
pub struct Guess {
    val: i32,
}

impl vstd::std_specs::cmp::PartialOrdSpecImpl for Guess {
    open spec fn obeys_partial_cmp_spec() -> bool {
        true
    }

    open spec fn partial_cmp_spec(&self, other: &Self) -> Option<Ordering> {
        if self@ < other@ {
            Some(Ordering::Less)
        } else if self@ == other@ {
            Some(Ordering::Equal)
        } else {
            Some(Ordering::Greater)
        }
    }
}

impl PartialOrd for Guess {
    /// Guesses order exactly as their stored values do.
    fn partial_cmp(&self, other: &Self) -> (r: Option<Ordering>) {
        if self.val < other.val {
            Some(Ordering::Less)
        } else if self.val == other.val {
            Some(Ordering::Equal)
        } else {
            Some(Ordering::Greater)
        }
    }
}

impl View for Guess {
    type V = int;

    closed spec fn view(&self) -> int {
        self.val as int
    }
}

impl Guess {
    /// Every live `Guess` holds a value within the range 0 to 100.
    #[verifier::type_invariant]
    spec fn range_inv(self) -> bool {
        0 <= self.val <= 100
    }

    /// Creates a new `Guess` from an integer, rejecting values outside
    /// the range 0 to 100.
    pub fn new(val: i32) -> (r: Result<Guess, GuessRangeError>)
        ensures
            r is Ok <==> 0 <= val <= 100,
            r matches Ok(g) ==> g@ == val as int,
    {
        if val < 0 || val > 100 {
            return Err(GuessRangeError);
        }
        Ok(Guess { val })
    }

    /// Creates a new `Guess` by parsing the provided string slice, after
    /// trimming white space on both sides. A string that is not a decimal
    /// integer literal, or whose value does not fit a 32-bit signed
    /// integer, yields a lexical error; an integer outside the range
    /// 0 to 100 yields a wrapped range error.
    pub fn parse(val: &str) -> (r: Result<Guess, GuessParseError>)
        ensures
            ({
                let t = trimmed(val@);
                &&& (r is Ok <==> parses_to_i32(t) && 0 <= literal_value(t) <= 100)
                &&& (r matches Ok(g) ==> g@ == literal_value(t))
                &&& (r matches Err(e) ==> (e is Lexical <==> !parses_to_i32(t)))
                &&& (r matches Err(e) ==> (e is Range <==> parses_to_i32(t) && !(0
                    <= literal_value(t) <= 100)))
            }),
    {
        let t = trim_spaces(val);
        let ghost ts = t@;
        let n = t.unicode_len();
        if n == 0 {
            return Err(GuessParseError::Lexical);
        }
        let c0 = t.get_char(0);
        let neg = c0 == '-';
        let start: usize = if c0 == '-' || c0 == '+' {
            1
        } else {
            0
        };
        if n == start {
            return Err(GuessParseError::Lexical);
        }
        let mut k = start;
        let mut acc: u64 = 0;
        let mut over = false;
        while k < n
            invariant
                start <= k <= n,
                n == ts.len(),
                ts == t@,
                ts == trimmed(val@),
                start == 1 <==> (ts[0] == '-' || ts[0] == '+'),
                start <= 1,
                all_digits(ts.subrange(start as int, k as int)),
                !over ==> acc as int == digits_val(ts.subrange(start as int, k as int)),
                over ==> digits_val(ts.subrange(start as int, k as int)) > 0xffff_ffff,
            decreases n - k,
        {
            let c = t.get_char(k);
            if !(c >= '0' && c <= '9') {
                proof {
                    assert(!is_digit(ts[k as int]));
                    if ts[0] == '-' || ts[0] == '+' {
                        assert(ts.drop_first()[k - 1] == ts[k as int]);
                        assert(!all_digits(ts.drop_first()));
                    } else {
                        assert(!all_digits(ts));
                    }
                }
                return Err(GuessParseError::Lexical);
            }
            let d = (c as u32 - 48) as u64;
            proof {
                lemma_digits_val_push(ts.subrange(start as int, k as int), c);
                assert(ts.subrange(start as int, k + 1 as int) =~= ts.subrange(
                    start as int,
                    k as int,
                ).push(ts[k as int]));
                lemma_digits_val_nonneg(ts.subrange(start as int, k as int));
            }
            if over || acc > 0xffff_ffff {
                over = true;
            } else {
                acc = acc * 10 + d;
            }
            k += 1;
        }
        proof {
            assert(ts.subrange(start as int, n as int) =~= (if start == 1 {
                ts.drop_first()
            } else {
                ts
            }));
        }
        let v: i32 = if over {
            return Err(GuessParseError::Lexical);
        } else if neg {
            if acc > 0x8000_0000 {
                return Err(GuessParseError::Lexical);
            } else if acc == 0x8000_0000 {
                i32::MIN
            } else {
                0i32 - (acc as i32)
            }
        } else {
            if acc > 0x7fff_ffff {
                return Err(GuessParseError::Lexical);
            }
            acc as i32
        };
        match Guess::new(v) {
            Ok(g) => Ok(g),
            Err(e) => Err(GuessParseError::Range(e)),
        }
    }

    /// Gets the value stored in the object.
    pub fn value(&self) -> (r: &i32)
        ensures
            *r as int == self@,
            0 <= *r <= 100,
    {
        proof {
            use_type_invariant(self);
        }
        &self.val
    }
}

/// Relies on rand::Rng::gen_range: it returns a sample that lies within
/// the given range, here the non-empty range 0..101.
#[verifier::external_body]
fn random_below_101() -> (r: i32)
    ensures
        0 <= r < 101,
{
    rand::thread_rng().gen_range(0..101)
}

/// Generates a `Guess` holding a randomly generated number in the
/// range 0 to 100.
pub fn gen_random() -> (g: Guess)
    ensures
        0 <= g@ <= 100,
{
    let v = random_below_101();
    match Guess::new(v) {
        Ok(g) => g,
        Err(_) => unreached(),
    }
}

/// Equality law: two guesses are equal exactly when their stored values
/// are equal; in particular, equality is reflexive, symmetric and
/// transitive.
pub proof fn lemma_eq_is_value_eq(a: Guess, b: Guess)
    ensures
        (a == b) <==> a@ == b@,
{
}

/// Totality law: comparison never returns an unordered answer, and the
/// answer agrees with plain integer comparison of the stored values;
/// the ordering is consistent with equality.
pub proof fn lemma_cmp_agrees_with_value(a: Guess, b: Guess)
    ensures
        a.partial_cmp_spec(&b) is Some,
        a.partial_cmp_spec(&b) == Some(Ordering::Less) <==> a@ < b@,
        a.partial_cmp_spec(&b) == Some(Ordering::Equal) <==> a == b,
        a.partial_cmp_spec(&b) == Some(Ordering::Greater) <==> a@ > b@,
{
}

/// Antisymmetry law: swapping the operands of a comparison turns
/// greater into less, and keeps equal answers equal.
pub proof fn lemma_cmp_antisymmetric(a: Guess, b: Guess)
    ensures
        a.partial_cmp_spec(&b) == Some(Ordering::Greater) <==> b.partial_cmp_spec(&a) == Some(
            Ordering::Less,
        ),
        a.partial_cmp_spec(&b) == Some(Ordering::Equal) <==> b.partial_cmp_spec(&a) == Some(
            Ordering::Equal,
        ),
{
}

/// Transitivity law: a guess below a second, which is below a third,
/// is below the third.
pub proof fn lemma_cmp_transitive(a: Guess, b: Guess, c: Guess)
    requires
        a.partial_cmp_spec(&b) == Some(Ordering::Less),
        b.partial_cmp_spec(&c) == Some(Ordering::Less),
    ensures
        a.partial_cmp_spec(&c) == Some(Ordering::Less),
{
}

} // verus!
