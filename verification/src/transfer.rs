//! Moving energy between the pool of idle energy (unbounded) and the energy
//! assigned to a skill (a `u32`): one side loses what the other gains, never
//! more than the giving side holds.

use crate::bignat::BigNat;
use vstd::prelude::*;

verus! {

pub open spec fn min_nat(a: nat, b: nat) -> nat {
    if a <= b {
        a
    } else {
        b
    }
}

/// The amounts on the giving and the receiving side after a shift of
/// `amount`: the giving side gives what it has, up to `amount`.
pub open spec fn shift_spec(from: nat, to: nat, amount: nat) -> (nat, nat) {
    let moved = min_nat(amount, from);
    ((from - moved) as nat, to + moved)
}

/// Moves up to `amount` from an unbounded pool into a `u32`.
pub fn shift_biguint_to_u32(from: &mut BigNat, to: &mut u32, amount: &BigNat)
    requires
        min_nat(amount@, old(from)@) + *old(to) <= u32::MAX,
    ensures
        (final(from)@, *final(to) as nat) == shift_spec(old(from)@, *old(to) as nat, amount@),
{
    let actual_amount = amount.min(from);
    let remaining = from.sub(&actual_amount);
    *from = remaining;
    let moved = actual_amount.to_u32_saturating();
    *to = *to + moved;
}

/// Moves up to `amount` from a `u32` into an unbounded pool.
pub fn shift_u32_to_biguint(from: &mut u32, to: &mut BigNat, amount: u32)
    ensures
        (*final(from) as nat, final(to)@) == shift_spec(*old(from) as nat, old(to)@, amount as nat),
{
    let actual_amount = if amount <= *from {
        amount
    } else {
        *from
    };
    *from = *from - actual_amount;
    let grown = to.add_u32(actual_amount);
    *to = grown;
}

/// A shift never creates or destroys energy: the two sides sum to what they
/// summed to before.
pub proof fn lemma_shift_conserves(from: nat, to: nat, amount: nat)
    ensures
        shift_spec(from, to, amount).0 + shift_spec(from, to, amount).1 == from + to,
        shift_spec(from, to, amount).0 <= from,
{
}

/// A shift moves exactly the amount when the giving side holds it, and
/// otherwise everything the giving side holds.
pub proof fn lemma_shift_moves_exactly(from: nat, to: nat, amount: nat)
    ensures
        amount <= from ==> shift_spec(from, to, amount) == ((from - amount) as nat, to + amount),
        amount > from ==> shift_spec(from, to, amount) == (0nat, to + from),
{
}

/// Shifting an amount that the giving side holds, and then the same amount
/// back, restores both sides.
pub proof fn lemma_shift_round_trip(from: nat, to: nat, amount: nat)
    requires
        amount <= from,
    ensures
        ({
            let (f1, t1) = shift_spec(from, to, amount);
            let (t2, f2) = shift_spec(t1, f1, amount);
            f2 == from && t2 == to
        }),
{
}

} // verus!
