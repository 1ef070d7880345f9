//! Energy accounting across the energy pool and the three skill groups: the
//! idle energy plus the energy assigned to skills is the energy the player
//! has. A new game starts accounted; ticks, shifts between idle and assigned
//! energy, and rebirths keep it so.

use crate::energy::{EnergyState, new_game_energy};
use crate::training::{Skill, group_updated, group_reborn, skills_ticked};
use crate::transfer::shift_spec;
use vstd::prelude::*;

verus! {

/// The energy assigned to the skills of a group.
pub open spec fn assigned_total(s: Seq<Skill>) -> nat
    decreases s.len(),
{
    if s.len() == 0 {
        0
    } else {
        assigned_total(s.drop_last()) + s.last().assigned_energy as nat
    }
}

/// Idle energy plus assigned energy is all the energy there is.
pub open spec fn energy_accounted(
    e: EnergyState,
    attack: Seq<Skill>,
    defense: Seq<Skill>,
    hitpoints: Seq<Skill>,
) -> bool {
    e.idle_energy + assigned_total(attack) + assigned_total(defense) + assigned_total(hitpoints)
        == e.energy
}

/// Groups that assign the same energy skill by skill assign the same total.
proof fn lemma_assigned_total_pointwise(s: Seq<Skill>, t: Seq<Skill>)
    requires
        s.len() == t.len(),
        forall|i: int| 0 <= i < s.len() ==> s[i].assigned_energy == t[i].assigned_energy,
    ensures
        assigned_total(s) == assigned_total(t),
    decreases s.len(),
{
    if s.len() > 0 {
        lemma_assigned_total_pointwise(s.drop_last(), t.drop_last());
    }
}

/// Changing one skill's assigned energy changes the total by the difference.
proof fn lemma_assigned_total_update(s: Seq<Skill>, i: int, k: Skill)
    requires
        0 <= i < s.len(),
    ensures
        assigned_total(s.update(i, k)) + s[i].assigned_energy == assigned_total(s)
            + k.assigned_energy,
    decreases s.len(),
{
    let u = s.update(i, k);
    if i == s.len() - 1 {
        assert(u.drop_last() =~= s.drop_last());
    } else {
        assert(u.drop_last() =~= s.drop_last().update(i, k));
        lemma_assigned_total_update(s.drop_last(), i, k);
    }
}

proof fn lemma_assigned_total_zero(s: Seq<Skill>)
    requires
        forall|i: int| 0 <= i < s.len() ==> s[i].assigned_energy == 0,
    ensures
        assigned_total(s) == 0,
    decreases s.len(),
{
    if s.len() > 0 {
        lemma_assigned_total_zero(s.drop_last());
    }
}

/// A tick leaves every skill's assigned energy as it was.
proof fn lemma_group_update_keeps_assigned(s: Seq<Skill>)
    ensures
        assigned_total(group_updated(s)) == assigned_total(s),
{
    let t = skills_ticked(s);
    assert forall|i: int| 0 <= i < s.len() implies s[i].assigned_energy
        == group_updated(s)[i].assigned_energy by {
        assert(t[i] == s[i].updated());
    }
    lemma_assigned_total_pointwise(s, group_updated(s));
}

/// A new game starts with no energy and nothing assigned.
pub proof fn lemma_new_game_accounted(attack: Seq<Skill>, defense: Seq<Skill>, hitpoints: Seq<Skill>)
    requires
        forall|i: int| 0 <= i < attack.len() ==> attack[i].assigned_energy == 0,
        forall|i: int| 0 <= i < defense.len() ==> defense[i].assigned_energy == 0,
        forall|i: int| 0 <= i < hitpoints.len() ==> hitpoints[i].assigned_energy == 0,
    ensures
        energy_accounted(new_game_energy(), attack, defense, hitpoints),
{
    lemma_assigned_total_zero(attack);
    lemma_assigned_total_zero(defense);
    lemma_assigned_total_zero(hitpoints);
}

/// A tick of the energy pool and of training together keep the accounting:
/// a filled energy arrives as idle energy, and training leaves the assigned
/// energy alone.
pub proof fn lemma_tick_keeps_accounting(
    e: EnergyState,
    attack: Seq<Skill>,
    defense: Seq<Skill>,
    hitpoints: Seq<Skill>,
)
    requires
        energy_accounted(e, attack, defense, hitpoints),
    ensures
        energy_accounted(
            e.updated(),
            group_updated(attack),
            group_updated(defense),
            group_updated(hitpoints),
        ),
{
    lemma_group_update_keeps_assigned(attack);
    lemma_group_update_keeps_assigned(defense);
    lemma_group_update_keeps_assigned(hitpoints);
}

/// Shifting energy between idle energy and one skill of a group keeps the
/// accounting, in either direction. (The groups enter the accounting alike,
/// so the shifted skill may stand in any of them.)
pub proof fn lemma_shift_keeps_accounting(
    e: EnergyState,
    attack: Seq<Skill>,
    defense: Seq<Skill>,
    hitpoints: Seq<Skill>,
    i: int,
    amount: nat,
    to_skill: bool,
)
    requires
        energy_accounted(e, attack, defense, hitpoints),
        0 <= i < attack.len(),
    ensures
        ({
            let k = attack[i];
            let (idle, assigned) = if to_skill {
                shift_spec(e.idle_energy, k.assigned_energy as nat, amount)
            } else {
                let (a, b) = shift_spec(k.assigned_energy as nat, e.idle_energy, amount);
                (b, a)
            };
            assigned <= u32::MAX ==> energy_accounted(
                EnergyState { idle_energy: idle, ..e },
                attack.update(i, Skill { assigned_energy: assigned as u32, ..k }),
                defense,
                hitpoints,
            )
        }),
{
    let k = attack[i];
    let (idle, assigned) = if to_skill {
        shift_spec(e.idle_energy, k.assigned_energy as nat, amount)
    } else {
        let (a, b) = shift_spec(k.assigned_energy as nat, e.idle_energy, amount);
        (b, a)
    };
    if assigned <= u32::MAX {
        lemma_assigned_total_update(attack, i, Skill { assigned_energy: assigned as u32, ..k });
    }
}

/// A rebirth of the energy pool and of training together restore the
/// accounting: no energy, nothing idle, nothing assigned.
pub proof fn lemma_rebirth_accounted(
    e: EnergyState,
    attack: Seq<Skill>,
    defense: Seq<Skill>,
    hitpoints: Seq<Skill>,
    attack_required: Seq<u32>,
    defense_required: Seq<u32>,
    hitpoint_required: Seq<u32>,
)
    requires
        attack.len() == attack_required.len(),
        defense.len() == defense_required.len(),
        hitpoints.len() == hitpoint_required.len(),
    ensures
        energy_accounted(
            e.reborn(),
            group_reborn(attack, attack_required),
            group_reborn(defense, defense_required),
            group_reborn(hitpoints, hitpoint_required),
        ),
{
    lemma_assigned_total_zero(group_reborn(attack, attack_required));
    lemma_assigned_total_zero(group_reborn(defense, defense_required));
    lemma_assigned_total_zero(group_reborn(hitpoints, hitpoint_required));
}

} // verus!
