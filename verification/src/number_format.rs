//! Integer parts of number formatting: digits grouped by thousands with
//! commas, and the power of one thousand that picks a number's suffix.

use thousands::Separable;
use vstd::prelude::*;

verus! {

/// Below this, numbers are written out in full with commas.
pub const FULL_FORMAT_LIMIT: u64 = 1_000_000;

pub open spec fn digit_char(d: nat) -> char {
    (48 + d) as char
}

/// The decimal representation of `n`, without leading zeros.
pub open spec fn decimal_spec(n: nat) -> Seq<char>
    decreases n,
{
    if n < 10 {
        seq![digit_char(n)]
    } else {
        decimal_spec(n / 10).push(digit_char(n % 10))
    }
}

/// Three decimal digits of `k`, with leading zeros.
pub open spec fn three_digits(k: nat) -> Seq<char> {
    seq![digit_char(k / 100), digit_char((k / 10) % 10), digit_char(k % 10)]
}

/// The decimal representation of `n` with a comma between every group of
/// three digits, counted from the right.
pub open spec fn with_commas_spec(n: nat) -> Seq<char>
    decreases n,
{
    if n < 1000 {
        decimal_spec(n)
    } else {
        with_commas_spec(n / 1000) + seq![','] + three_digits(n % 1000)
    }
}

/// Writes a number with `thousands`' `Separable::separate_with_commas`,
/// which formats the number with `to_string` and puts a comma between every
/// group of three digits from the right. Claims exactly that text.
#[verifier::external_body]
fn separate_with_commas(n: u64) -> (r: String)
    ensures
        r@ == with_commas_spec(n as nat),
{
    n.separate_with_commas()
}

/// A number below `FULL_FORMAT_LIMIT` written in full with commas; `None`
/// for larger numbers, which are written with a suffix.
pub fn format_u64_exact(number: u64) -> (r: Option<String>)
    ensures
        number < FULL_FORMAT_LIMIT ==> (r matches Some(s) && s@ == with_commas_spec(number as nat)),
        number >= FULL_FORMAT_LIMIT ==> r is None,
{
    if number < FULL_FORMAT_LIMIT {
        Some(separate_with_commas(number))
    } else {
        None
    }
}

pub open spec fn pow1000(k: nat) -> nat
    decreases k,
{
    if k == 0 {
        1
    } else {
        1000 * pow1000((k - 1) as nat)
    }
}

/// The power of one thousand that a positive number reaches: the position of
/// its suffix (thousand, million, billion, ...).
pub fn thousands_exponent(number: u64) -> (r: u32)
    requires
        number >= 1,
    ensures
        pow1000(r as nat) <= number < pow1000(r as nat + 1),
{
    let mut rest = number;
    let mut k: u32 = 0;
    assert(pow1000(0) == 1);
    while rest >= 1000
        invariant
            rest >= 1,
            k <= 7,
            pow1000(k as nat) * rest <= number < pow1000(k as nat) * (rest + 1),
        decreases rest,
    {
        proof {
            let p = pow1000(k as nat);
            lemma_pow1000_positive(k as nat);
            assert(p * 1000 * (rest / 1000) <= p * rest) by (nonlinear_arith)
                requires
                    p >= 0,
                    rest >= 0,
            ;
            assert(p * (rest + 1) <= p * 1000 * (rest / 1000 + 1)) by (nonlinear_arith)
                requires
                    p > 0,
                    rest >= 0,
            ;
            assert(pow1000(k as nat + 1) == p * 1000);
            lemma_pow1000_bound(k as nat, rest as nat, number as nat);
        }
        rest = rest / 1000;
        k = k + 1;
    }
    proof {
        let p = pow1000(k as nat);
        lemma_pow1000_positive(k as nat);
        assert(p <= p * rest) by (nonlinear_arith)
            requires
                p > 0,
                rest >= 1,
        ;
        assert(p * (rest + 1) <= p * 1000) by (nonlinear_arith)
            requires
                p > 0,
                rest < 1000,
        ;
    }
    k
}

proof fn lemma_pow1000_positive(k: nat)
    ensures
        pow1000(k) > 0,
    decreases k,
{
    if k > 0 {
        lemma_pow1000_positive((k - 1) as nat);
    }
}

/// While a thousand-fold rest remains, fewer than seven divisions have
/// happened: a `u64` is below one thousand to the seventh.
proof fn lemma_pow1000_bound(k: nat, rest: nat, number: nat)
    requires
        rest >= 1000,
        pow1000(k) * rest <= number,
        number <= u64::MAX,
    ensures
        k < 7,
{
    if k >= 7 {
        lemma_pow1000_monotone(7, k);
        reveal_with_fuel(pow1000, 8);
        assert(pow1000(7) * 1000 > u64::MAX);
        assert(pow1000(k) * rest >= pow1000(7) * 1000) by (nonlinear_arith)
            requires
                pow1000(k) >= pow1000(7),
                rest >= 1000,
                pow1000(7) >= 0,
        ;
    }
}

proof fn lemma_pow1000_monotone(a: nat, b: nat)
    requires
        a <= b,
    ensures
        pow1000(a) <= pow1000(b),
    decreases b,
{
    if a < b {
        lemma_pow1000_monotone(a, (b - 1) as nat);
        lemma_pow1000_positive((b - 1) as nat);
    }
}

} // verus!
