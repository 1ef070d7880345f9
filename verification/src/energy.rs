//! Energy: it fills up over time while below its cap, and every energy that
//! fills also brings the cap that the next rebirth starts from a step closer
//! to growing by one.
//!
//! The game runs at a fixed number of ticks per second. Progress is counted
//! in whole ticks: one energy fills every `TICKS_PER_ENERGY` ticks (one
//! second), and the cap after rebirth grows by one every
//! `ENERGY_PER_MAX_ENERGY_STEP` filled energies (one minute).

use crate::bignat::BigNat;
use crate::transfer::{shift_biguint_to_u32, shift_u32_to_biguint, shift_spec, min_nat};
use vstd::prelude::*;

verus! {

/// Ticks the game runs per second.
pub const TICKS_PER_SECOND: u32 = 50;

/// Ticks it takes one energy to fill.
pub const TICKS_PER_ENERGY: u32 = 50;

/// Energies that fill before the cap after rebirth grows by one.
pub const ENERGY_PER_MAX_ENERGY_STEP: u32 = 60;

/// The energy cap of a new game.
pub const INITIAL_MAX_ENERGY: u32 = 100;

/// The mathematical state of the energy pool.
pub struct EnergyState {
    pub energy: nat,
    pub idle_energy: nat,
    pub max_energy: nat,
    /// Ticks collected toward the next energy.
    pub energy_progress: nat,
    /// Ticks an energy takes.
    pub ticks_per_energy: nat,
    pub max_energy_after_rebirth: nat,
    /// Energies filled toward the next growth of the cap after rebirth.
    pub max_energy_after_rebirth_progress: nat,
    /// Energies the cap after rebirth takes to grow by one.
    pub energy_per_max_energy_step: nat,
}

impl EnergyState {
    pub open spec fn wf(self) -> bool {
        &&& self.energy_progress < self.ticks_per_energy
        &&& self.max_energy_after_rebirth_progress < self.energy_per_max_energy_step
        &&& self.energy <= self.max_energy
    }

    /// One tick of the game.
    pub open spec fn updated(self) -> EnergyState {
        let progress = self.energy_progress + 1;
        if progress < self.ticks_per_energy {
            EnergyState { energy_progress: progress, ..self }
        } else {
            let gains = self.energy < self.max_energy;
            let energy = if gains { self.energy + 1 } else { self.energy };
            let idle_energy = if gains { self.idle_energy + 1 } else { self.idle_energy };
            let step = self.max_energy_after_rebirth_progress + 1;
            if step < self.energy_per_max_energy_step {
                EnergyState {
                    energy,
                    idle_energy,
                    energy_progress: 0,
                    max_energy_after_rebirth_progress: step,
                    ..self
                }
            } else {
                EnergyState {
                    energy,
                    idle_energy,
                    energy_progress: 0,
                    max_energy_after_rebirth_progress: 0,
                    max_energy_after_rebirth: self.max_energy_after_rebirth + 1,
                    ..self
                }
            }
        }
    }

    /// `n` ticks of the game.
    pub open spec fn updated_times(self, n: nat) -> EnergyState
        decreases n,
    {
        if n == 0 {
            self
        } else {
            self.updated_times((n - 1) as nat).updated()
        }
    }

    /// The state right after a rebirth.
    pub open spec fn reborn(self) -> EnergyState {
        EnergyState {
            energy: 0,
            idle_energy: 0,
            max_energy: self.max_energy_after_rebirth,
            energy_progress: 0,
            max_energy_after_rebirth_progress: 0,
            ..self
        }
    }
}

/// The state of a new game.
pub open spec fn new_game_energy() -> EnergyState {
    EnergyState {
        energy: 0,
        idle_energy: 0,
        max_energy: INITIAL_MAX_ENERGY as nat,
        energy_progress: 0,
        ticks_per_energy: TICKS_PER_ENERGY as nat,
        max_energy_after_rebirth: INITIAL_MAX_ENERGY as nat,
        max_energy_after_rebirth_progress: 0,
        energy_per_max_energy_step: ENERGY_PER_MAX_ENERGY_STEP as nat,
    }
}

pub struct Energy {
    energy: BigNat,
    idle_energy: BigNat,
    max_energy: BigNat,
    energy_progress: u32,
    ticks_per_energy: u32,
    max_energy_after_rebirth: BigNat,
    max_energy_after_rebirth_progress: u32,
    energy_per_max_energy_step: u32,
}

impl View for Energy {
    type V = EnergyState;

    closed spec fn view(&self) -> EnergyState {
        EnergyState {
            energy: self.energy@,
            idle_energy: self.idle_energy@,
            max_energy: self.max_energy@,
            energy_progress: self.energy_progress as nat,
            ticks_per_energy: self.ticks_per_energy as nat,
            max_energy_after_rebirth: self.max_energy_after_rebirth@,
            max_energy_after_rebirth_progress: self.max_energy_after_rebirth_progress as nat,
            energy_per_max_energy_step: self.energy_per_max_energy_step as nat,
        }
    }
}

impl Energy {
    #[verifier::type_invariant]
    spec fn inv(self) -> bool {
        self@.wf()
    }

    pub fn new_game() -> (r: Energy)
        ensures
            r@ == new_game_energy(),
            r@.wf(),
    {
        Energy {
            energy: BigNat::zero(),
            idle_energy: BigNat::zero(),
            max_energy: BigNat::from_u32(INITIAL_MAX_ENERGY),
            energy_progress: 0,
            ticks_per_energy: TICKS_PER_ENERGY,
            max_energy_after_rebirth: BigNat::from_u32(INITIAL_MAX_ENERGY),
            max_energy_after_rebirth_progress: 0,
            energy_per_max_energy_step: ENERGY_PER_MAX_ENERGY_STEP,
        }
    }

    /// One tick of the game.
    pub fn do_update(&mut self)
        ensures
            final(self)@ == old(self)@.updated(),
            old(self)@.wf(),
            final(self)@.wf(),
    {
        proof {
            use_type_invariant(&*self);
        }
        let progress = self.energy_progress + 1;
        if progress < self.ticks_per_energy {
            let new_state = Energy {
                energy: self.energy.clone(),
                idle_energy: self.idle_energy.clone(),
                max_energy: self.max_energy.clone(),
                energy_progress: progress,
                ticks_per_energy: self.ticks_per_energy,
                max_energy_after_rebirth: self.max_energy_after_rebirth.clone(),
                max_energy_after_rebirth_progress: self.max_energy_after_rebirth_progress,
                energy_per_max_energy_step: self.energy_per_max_energy_step,
            };
            *self = new_state;
        } else {
            let gains = self.energy.lt(&self.max_energy);
            let energy = if gains {
                self.energy.add_u32(1)
            } else {
                self.energy.clone()
            };
            let idle_energy = if gains {
                self.idle_energy.add_u32(1)
            } else {
                self.idle_energy.clone()
            };
            let step = self.max_energy_after_rebirth_progress + 1;
            let (after_progress, max_after) = if step < self.energy_per_max_energy_step {
                (step, self.max_energy_after_rebirth.clone())
            } else {
                (0, self.max_energy_after_rebirth.add_u32(1))
            };
            let new_state = Energy {
                energy,
                idle_energy,
                max_energy: self.max_energy.clone(),
                energy_progress: 0,
                ticks_per_energy: self.ticks_per_energy,
                max_energy_after_rebirth: max_after,
                max_energy_after_rebirth_progress: after_progress,
                energy_per_max_energy_step: self.energy_per_max_energy_step,
            };
            *self = new_state;
        }
    }

    /// Resets the pool for a new life: no energy, and the cap becomes the cap
    /// after rebirth.
    pub fn do_rebirth(&mut self)
        ensures
            final(self)@ == old(self)@.reborn(),
            old(self)@.wf(),
            final(self)@.wf(),
    {
        proof {
            use_type_invariant(&*self);
        }
        let new_state = Energy {
            energy: BigNat::zero(),
            idle_energy: BigNat::zero(),
            max_energy: self.max_energy_after_rebirth.clone(),
            energy_progress: 0,
            ticks_per_energy: self.ticks_per_energy,
            max_energy_after_rebirth: self.max_energy_after_rebirth.clone(),
            max_energy_after_rebirth_progress: 0,
            energy_per_max_energy_step: self.energy_per_max_energy_step,
        };
        *self = new_state;
    }

    /// Moves up to `amount` idle energy to a skill's assigned energy.
    pub fn assign_idle_energy(&mut self, assigned: &mut u32, amount: &BigNat)
        requires
            min_nat(amount@, old(self)@.idle_energy) + *old(assigned) <= u32::MAX,
        ensures
            (final(self)@.idle_energy, *final(assigned) as nat) == shift_spec(
                old(self)@.idle_energy,
                *old(assigned) as nat,
                amount@,
            ),
            final(self)@ == (EnergyState { idle_energy: final(self)@.idle_energy, ..old(self)@ }),
    {
        proof {
            use_type_invariant(&*self);
        }
        let mut idle = self.idle_energy.clone();
        shift_biguint_to_u32(&mut idle, assigned, amount);
        let new_state = Energy {
            energy: self.energy.clone(),
            idle_energy: idle,
            max_energy: self.max_energy.clone(),
            energy_progress: self.energy_progress,
            ticks_per_energy: self.ticks_per_energy,
            max_energy_after_rebirth: self.max_energy_after_rebirth.clone(),
            max_energy_after_rebirth_progress: self.max_energy_after_rebirth_progress,
            energy_per_max_energy_step: self.energy_per_max_energy_step,
        };
        *self = new_state;
    }

    /// Moves up to `amount` of a skill's assigned energy back to idle energy.
    pub fn reclaim_idle_energy(&mut self, assigned: &mut u32, amount: u32)
        ensures
            (*final(assigned) as nat, final(self)@.idle_energy) == shift_spec(
                *old(assigned) as nat,
                old(self)@.idle_energy,
                amount as nat,
            ),
            final(self)@ == (EnergyState { idle_energy: final(self)@.idle_energy, ..old(self)@ }),
    {
        proof {
            use_type_invariant(&*self);
        }
        let mut idle = self.idle_energy.clone();
        shift_u32_to_biguint(assigned, &mut idle, amount);
        let new_state = Energy {
            energy: self.energy.clone(),
            idle_energy: idle,
            max_energy: self.max_energy.clone(),
            energy_progress: self.energy_progress,
            ticks_per_energy: self.ticks_per_energy,
            max_energy_after_rebirth: self.max_energy_after_rebirth.clone(),
            max_energy_after_rebirth_progress: self.max_energy_after_rebirth_progress,
            energy_per_max_energy_step: self.energy_per_max_energy_step,
        };
        *self = new_state;
    }

    pub fn energy(&self) -> (r: &BigNat)
        ensures
            r@ == self@.energy,
    {
        &self.energy
    }

    pub fn idle_energy(&self) -> (r: &BigNat)
        ensures
            r@ == self@.idle_energy,
    {
        &self.idle_energy
    }

    pub fn max_energy(&self) -> (r: &BigNat)
        ensures
            r@ == self@.max_energy,
    {
        &self.max_energy
    }

    pub fn max_energy_after_rebirth(&self) -> (r: &BigNat)
        ensures
            r@ == self@.max_energy_after_rebirth,
    {
        &self.max_energy_after_rebirth
    }

    /// Ticks collected toward the next energy.
    pub fn energy_progress(&self) -> (r: u32)
        ensures
            r == self@.energy_progress,
    {
        self.energy_progress
    }

    /// Ticks an energy takes.
    pub fn ticks_per_energy(&self) -> (r: u32)
        ensures
            r == self@.ticks_per_energy,
    {
        self.ticks_per_energy
    }

    /// Energies filled toward the next growth of the cap after rebirth.
    pub fn max_energy_after_rebirth_progress(&self) -> (r: u32)
        ensures
            r == self@.max_energy_after_rebirth_progress,
    {
        self.max_energy_after_rebirth_progress
    }

    /// Energies the cap after rebirth takes to grow by one.
    pub fn energy_per_max_energy_step(&self) -> (r: u32)
        ensures
            r == self@.energy_per_max_energy_step,
    {
        self.energy_per_max_energy_step
    }
}

/// A tick and a rebirth keep a well-formed state well formed: energy stays
/// within its cap and the progress counters below their goals.
pub proof fn lemma_energy_steps_keep_wf(s: EnergyState)
    requires
        s.wf(),
    ensures
        s.updated().wf(),
        s.reborn().wf(),
{
}

/// The cap after rebirth never shrinks: a tick grows it by at most one, and a
/// rebirth keeps it.
pub proof fn lemma_max_energy_after_rebirth_monotone(s: EnergyState)
    ensures
        s.max_energy_after_rebirth <= s.updated().max_energy_after_rebirth
            <= s.max_energy_after_rebirth + 1,
        s.reborn().max_energy_after_rebirth == s.max_energy_after_rebirth,
{
}

/// Energy and idle energy grow by at most one per tick, and not at all once
/// energy has reached its cap.
pub proof fn lemma_energy_growth_per_tick(s: EnergyState)
    ensures
        s.energy <= s.updated().energy <= s.energy + 1,
        s.updated().energy - s.energy == s.updated().idle_energy - s.idle_energy,
        s.energy >= s.max_energy ==> s.updated().energy == s.energy,
        s.updated().max_energy == s.max_energy,
{
}

/// Fewer ticks than an energy takes only advance the progress.
proof fn lemma_ticks_before_fill(s: EnergyState, k: nat)
    requires
        s.wf(),
        s.energy_progress == 0,
        k < s.ticks_per_energy,
    ensures
        s.updated_times(k) == (EnergyState { energy_progress: k, ..s }),
    decreases k,
{
    if k > 0 {
        lemma_ticks_before_fill(s, (k - 1) as nat);
    }
}

/// Below the cap, one energy fills every `ticks_per_energy` ticks: starting
/// from no progress, that many ticks add exactly one energy and one idle
/// energy and leave no progress.
pub proof fn lemma_one_energy_per_fill(s: EnergyState)
    requires
        s.wf(),
        s.energy_progress == 0,
        s.energy < s.max_energy,
    ensures
        s.updated_times(s.ticks_per_energy).energy == s.energy + 1,
        s.updated_times(s.ticks_per_energy).idle_energy == s.idle_energy + 1,
        s.updated_times(s.ticks_per_energy).energy_progress == 0,
{
    let n = (s.ticks_per_energy - 1) as nat;
    lemma_ticks_before_fill(s, n);
}

/// A rebirth keeps the fill rates and the cap after rebirth: only energy,
/// idle energy, the cap and the two progress counters change.
pub proof fn lemma_rebirth_keeps_rates(s: EnergyState)
    ensures
        s.reborn().ticks_per_energy == s.ticks_per_energy,
        s.reborn().energy_per_max_energy_step == s.energy_per_max_energy_step,
        s.reborn().max_energy_after_rebirth == s.max_energy_after_rebirth,
        s.reborn().max_energy == s.max_energy_after_rebirth,
        s.reborn().energy == 0,
        s.reborn().idle_energy == 0,
        s.reborn().energy_progress == 0,
        s.reborn().max_energy_after_rebirth_progress == 0,
{
}

/// After a rebirth, energy fills as before: with a positive cap after
/// rebirth, the same `ticks_per_energy` ticks bring exactly one energy.
pub proof fn lemma_energy_fills_after_rebirth(s: EnergyState)
    requires
        s.wf(),
        s.max_energy_after_rebirth > 0,
    ensures
        s.reborn().updated_times(s.ticks_per_energy).energy == 1,
        s.reborn().updated_times(s.ticks_per_energy).idle_energy == 1,
{
    lemma_energy_steps_keep_wf(s);
    lemma_rebirth_keeps_rates(s);
    lemma_one_energy_per_fill(s.reborn());
}

/// A rebirth right after a rebirth changes nothing more.
pub proof fn lemma_rebirth_idempotent(s: EnergyState)
    ensures
        s.reborn().reborn() == s.reborn(),
{
}

} // verus!
