//! Natural numbers of any size, held as base-2^32 digits (least significant
//! first). The arithmetic itself is done by `num::BigUint`.

use num::BigUint;
use num::ToPrimitive;
use vstd::prelude::*;

verus! {

/// The number that a little-endian sequence of base-2^32 digits denotes.
pub open spec fn digits_value(d: Seq<u32>) -> nat
    decreases d.len(),
{
    if d.len() == 0 {
        0
    } else {
        d[0] as nat + 0x1_0000_0000 * digits_value(d.drop_first())
    }
}

/// Digits in the form that `BigUint::to_u32_digits` hands out: no zero digit
/// at the most significant end (zero itself has no digits).
pub open spec fn is_normalized(d: Seq<u32>) -> bool {
    d.len() == 0 || d.last() != 0
}

/// What `BigUint::from_str` accepts: an optional single leading `+`, then a
/// non-empty run of decimal digits and underscores that does not start with
/// an underscore. The value is that of the digits, the underscores skipped.
pub open spec fn parse_decimal_spec(s: Seq<char>) -> Option<nat> {
    let t = if s.len() > 0 && s[0] == '+' && !(s.len() > 1 && s[1] == '+') {
        s.drop_first()
    } else {
        s
    };
    if t.len() == 0 || t[0] == '_' {
        None
    } else if exists|i: int| 0 <= i < t.len() && !is_digit_or_underscore(#[trigger] t[i]) {
        None
    } else {
        Some(decimal_value(t))
    }
}

pub open spec fn is_digit_or_underscore(c: char) -> bool {
    ('0' <= c && c <= '9') || c == '_'
}

/// The value of a string of decimal digits, underscores skipped.
pub open spec fn decimal_value(t: Seq<char>) -> nat
    decreases t.len(),
{
    if t.len() == 0 {
        0
    } else if t.last() == '_' {
        decimal_value(t.drop_last())
    } else {
        decimal_value(t.drop_last()) * 10 + ((t.last() as int - '0' as int) as nat)
    }
}

/// A natural number of unbounded size. Its digits never end in a zero digit,
/// so two numbers have the same digits exactly when they have the same value
/// (`lemma_normalized_digits_unique`), and the derived `==` compares values.
#[derive(Debug, PartialEq, Eq)]
pub struct BigNat {
    digits: Vec<u32>,
}

impl View for BigNat {
    type V = nat;

    closed spec fn view(&self) -> nat {
        digits_value(self.digits@)
    }
}

/// A trailing zero digit adds nothing to the value.
proof fn lemma_trailing_zero(d: Seq<u32>)
    requires
        d.len() > 0,
        d.last() == 0,
    ensures
        digits_value(d) == digits_value(d.drop_last()),
    decreases d.len(),
{
    if d.len() == 1 {
        assert(d.drop_first().len() == 0);
        assert(d.drop_last().len() == 0);
        assert(d[0] == d.last());
        assert(digits_value(d) == d[0] as nat + 0x1_0000_0000 * digits_value(d.drop_first()));
    } else {
        let t = d.drop_first();
        let u = d.drop_last();
        lemma_trailing_zero(t);
        assert(t.last() == d.last());
        assert(u.drop_first() =~= t.drop_last());
        assert(u[0] == d[0]);
        assert(digits_value(u) == u[0] as nat + 0x1_0000_0000 * digits_value(u.drop_first()));
        assert(digits_value(d) == d[0] as nat + 0x1_0000_0000 * digits_value(t));
    }
}

/// Normalized digits of a positive number are not empty, and those of zero are.
proof fn lemma_normalized_positive(d: Seq<u32>)
    requires
        is_normalized(d),
    ensures
        d.len() > 0 <==> digits_value(d) > 0,
    decreases d.len(),
{
    if d.len() > 1 {
        lemma_normalized_positive(d.drop_first());
    }
}

/// Normalized digits are determined by their value.
pub proof fn lemma_normalized_digits_unique(a: Seq<u32>, b: Seq<u32>)
    requires
        is_normalized(a),
        is_normalized(b),
        digits_value(a) == digits_value(b),
    ensures
        a == b,
    decreases a.len(),
{
    lemma_normalized_positive(a);
    lemma_normalized_positive(b);
    if a.len() > 0 {
        let x = digits_value(a.drop_first());
        let y = digits_value(b.drop_first());
        let a0 = a[0] as int;
        let b0 = b[0] as int;
        assert(a0 == b0 && x == y) by (nonlinear_arith)
            requires
                a0 + 0x1_0000_0000 * x == b0 + 0x1_0000_0000 * y,
                0 <= a0 < 0x1_0000_0000,
                0 <= b0 < 0x1_0000_0000,
                x >= 0,
                y >= 0,
        ;
        lemma_normalized_digits_unique(a.drop_first(), b.drop_first());
        assert forall|i: int| 0 <= i < a.len() implies a[i] == b[i] by {
            if i > 0 {
                assert(a[i] == a.drop_first()[i - 1]);
                assert(b[i] == b.drop_first()[i - 1]);
            }
        }
        assert(a =~= b);
    }
}

/// Drops trailing zero digits; the value stays.
fn normalize(digits: Vec<u32>) -> (r: Vec<u32>)
    ensures
        is_normalized(r@),
        digits_value(r@) == digits_value(digits@),
{
    let mut d = digits;
    while d.len() > 0 && d[d.len() - 1] == 0
        invariant
            digits_value(d@) == digits_value(digits@),
        decreases d.len(),
    {
        proof {
            lemma_trailing_zero(d@);
        }
        d.pop();
    }
    d
}

/// Adds a `u32` through `num::BigUint`'s `Add<u32>`: the digits go in with
/// `BigUint::new` and come out with `BigUint::to_u32_digits`. Claims that the
/// digits returned denote the sum.
#[verifier::external_body]
fn biguint_add_u32(a: &Vec<u32>, k: u32) -> (r: Vec<u32>)
    ensures
        digits_value(r@) == digits_value(a@) + k,
{
    (BigUint::new(a.clone()) + k).to_u32_digits()
}

/// Subtracts through `num::BigUint`'s `Sub<&BigUint>`, which panics below
/// zero. Claims that the digits returned denote the difference.
#[verifier::external_body]
fn biguint_sub(a: &Vec<u32>, b: &Vec<u32>) -> (r: Vec<u32>)
    requires
        digits_value(b@) <= digits_value(a@),
    ensures
        digits_value(r@) == digits_value(a@) - digits_value(b@),
{
    (BigUint::new(a.clone()) - &BigUint::new(b.clone())).to_u32_digits()
}

/// Compares through `num::BigUint`'s `<`. Claims that it orders by value.
#[verifier::external_body]
fn biguint_lt(a: &Vec<u32>, b: &Vec<u32>) -> (r: bool)
    ensures
        r == (digits_value(a@) < digits_value(b@)),
{
    BigUint::new(a.clone()) < BigUint::new(b.clone())
}

/// The smaller of two numbers through `num::BigUint`'s `Ord::min`. Claims
/// that the digits returned denote the minimum.
#[verifier::external_body]
fn biguint_min(a: &Vec<u32>, b: &Vec<u32>) -> (r: Vec<u32>)
    ensures
        digits_value(r@) == if digits_value(a@) <= digits_value(b@) {
            digits_value(a@)
        } else {
            digits_value(b@)
        },
{
    BigUint::new(a.clone()).min(BigUint::new(b.clone())).to_u32_digits()
}

/// Divides by a `u32` through `num::BigUint`'s `Div<u32>`, which panics on a
/// zero divisor. Claims that the digits returned denote the floor quotient.
#[verifier::external_body]
fn biguint_div_u32(a: &Vec<u32>, d: u32) -> (r: Vec<u32>)
    requires
        d > 0,
    ensures
        digits_value(r@) == digits_value(a@) / (d as nat),
{
    (BigUint::new(a.clone()) / d).to_u32_digits()
}

/// Converts through `num::ToPrimitive::to_u32` on a `BigUint`. Claims `Some`
/// of the value exactly when it fits in a `u32`.
#[verifier::external_body]
fn biguint_to_u32(a: &Vec<u32>) -> (r: Option<u32>)
    ensures
        r == if digits_value(a@) <= u32::MAX {
            Some(digits_value(a@) as u32)
        } else {
            None
        },
{
    BigUint::new(a.clone()).to_u32()
}

/// Parses decimal text through `BigUint`'s `FromStr` (`from_str_radix` with
/// radix 10). Claims the outcome that `parse_decimal_spec` describes, which
/// is what the source of `from_str_radix` does for radix 10.
#[verifier::external_body]
fn biguint_parse(s: &str) -> (r: Option<Vec<u32>>)
    ensures
        match r {
            Some(d) => parse_decimal_spec(s@) == Some(digits_value(d@)),
            None => parse_decimal_spec(s@) is None,
        },
{
    s.parse::<BigUint>().ok().map(|n| n.to_u32_digits())
}

impl BigNat {
    #[verifier::type_invariant]
    spec fn inv(self) -> bool {
        is_normalized(self.digits@)
    }

    pub fn zero() -> (r: BigNat)
        ensures
            r@ == 0,
    {
        BigNat { digits: Vec::new() }
    }

    pub fn from_u32(n: u32) -> (r: BigNat)
        ensures
            r@ == n as nat,
    {
        let mut digits: Vec<u32> = Vec::new();
        if n != 0 {
            digits.push(n);
        }
        proof {
            reveal_with_fuel(digits_value, 2);
        }
        assert(is_normalized(digits@));
        BigNat { digits }
    }

    /// Builds a number from its base-2^32 digits, least significant first.
    /// Zero digits at the most significant end are dropped.
    pub fn from_digits(digits: Vec<u32>) -> (r: BigNat)
        ensures
            r@ == digits_value(digits@),
    {
        BigNat { digits: normalize(digits) }
    }

    /// The base-2^32 digits, least significant first, without zero digits at
    /// the most significant end: by `lemma_normalized_digits_unique`, the
    /// digits of two numbers are equal exactly when their values are.
    pub fn to_digits(&self) -> (r: Vec<u32>)
        ensures
            digits_value(r@) == self@,
            is_normalized(r@),
    {
        proof {
            use_type_invariant(self);
        }
        self.digits.clone()
    }

    pub fn add_u32(&self, k: u32) -> (r: BigNat)
        ensures
            r@ == self@ + k,
    {
        BigNat { digits: normalize(biguint_add_u32(&self.digits, k)) }
    }

    pub fn sub(&self, other: &BigNat) -> (r: BigNat)
        requires
            other@ <= self@,
        ensures
            r@ == self@ - other@,
    {
        BigNat { digits: normalize(biguint_sub(&self.digits, &other.digits)) }
    }

    pub fn lt(&self, other: &BigNat) -> (r: bool)
        ensures
            r == (self@ < other@),
    {
        biguint_lt(&self.digits, &other.digits)
    }

    pub fn min(&self, other: &BigNat) -> (r: BigNat)
        ensures
            r@ == if self@ <= other@ {
                self@
            } else {
                other@
            },
    {
        BigNat { digits: normalize(biguint_min(&self.digits, &other.digits)) }
    }

    pub fn div_u32(&self, d: u32) -> (r: BigNat)
        requires
            d > 0,
        ensures
            r@ == self@ / (d as nat),
    {
        BigNat { digits: normalize(biguint_div_u32(&self.digits, d)) }
    }

    /// The value as a `u32`, or `None` where it does not fit.
    pub fn to_u32(&self) -> (r: Option<u32>)
        ensures
            r == if self@ <= u32::MAX {
                Some(self@ as u32)
            } else {
                None
            },
    {
        biguint_to_u32(&self.digits)
    }

    /// The value as a `u32`, or `u32::MAX` where it does not fit.
    pub fn to_u32_saturating(&self) -> (r: u32)
        ensures
            r == if self@ <= u32::MAX {
                self@ as u32
            } else {
                u32::MAX
            },
    {
        match self.to_u32() {
            Some(v) => v,
            None => u32::MAX,
        }
    }

    /// Parses decimal text as `BigUint::from_str` does.
    pub fn parse_decimal(s: &str) -> (r: Option<BigNat>)
        ensures
            match r {
                Some(n) => parse_decimal_spec(s@) == Some(n@),
                None => parse_decimal_spec(s@) is None,
            },
    {
        match biguint_parse(s) {
            Some(d) => Some(BigNat { digits: normalize(d) }),
            None => None,
        }
    }
}

impl Clone for BigNat {
    fn clone(&self) -> (r: BigNat)
        ensures
            r@ == self@,
    {
        proof {
            use_type_invariant(self);
        }
        BigNat { digits: self.digits.clone() }
    }
}

} // verus!
