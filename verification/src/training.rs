//! Training: energy assigned to a skill fills its progress; a full progress
//! bar raises the skill's level. Skills come in three groups (attack, defense
//! and hitpoints); in each group a skill unlocks once the skill before it has
//! reached `UNLOCK_REQUIREMENT` levels per position. A group's stat is its
//! base value plus every skill's level times the skill's value per level.

use vstd::prelude::*;

verus! {

pub const BASE_ATTACK: u128 = 1;

pub const BASE_DEFENSE: u128 = 1;

pub const BASE_HITPOINTS: u128 = 1000;

/// Levels of the preceding skill needed per position to unlock a skill.
pub const UNLOCK_REQUIREMENT: u64 = 5000;

pub struct Skill {
    pub name: String,
    pub assigned_energy: u32,
    pub progress: u32,
    pub required_progress: u32,
    pub level: u64,
    pub value_per_level: u64,
    pub unlocked: bool,
}

impl Skill {
    /// Whether the next tick fills the progress bar.
    pub open spec fn levels_up(self) -> bool {
        self.assigned_energy + self.progress >= self.required_progress
    }

    /// The next tick neither overflows the progress nor the level.
    pub open spec fn can_update(self) -> bool {
        &&& self.assigned_energy + self.progress <= u32::MAX
        &&& self.levels_up() ==> self.level < u64::MAX
    }

    /// The skill after one tick: the assigned energy is added to the
    /// progress; a full bar empties and raises the level by one.
    pub open spec fn updated(self) -> Skill {
        if self.levels_up() {
            Skill { progress: 0, level: (self.level + 1) as u64, ..self }
        } else {
            Skill { progress: (self.assigned_energy + self.progress) as u32, ..self }
        }
    }

    /// The skill after a rebirth, with the progress the next life requires.
    pub open spec fn reborn(self, required_progress: u32) -> Skill {
        Skill { assigned_energy: 0, progress: 0, level: 0, required_progress, ..self }
    }

    pub open spec fn value_spec(self) -> nat {
        self.level as nat * self.value_per_level as nat
    }

    pub fn new_game(name: &str, required_progress: u32, value_per_level: u64, unlocked: bool) -> (r:
        Skill)
        ensures
            r.name@ == name@,
            r.assigned_energy == 0,
            r.progress == 0,
            r.required_progress == required_progress,
            r.level == 0,
            r.value_per_level == value_per_level,
            r.unlocked == unlocked,
    {
        Skill {
            name: String::from_str(name),
            assigned_energy: 0,
            progress: 0,
            required_progress,
            level: 0,
            value_per_level,
            unlocked,
        }
    }

    /// A copy of this skill with the given fields replaced.
    fn with_state(&self, progress: u32, level: u64, unlocked: bool) -> (r: Skill)
        ensures
            r == (Skill { progress, level, unlocked, ..*self }),
    {
        Skill {
            name: self.name.clone(),
            assigned_energy: self.assigned_energy,
            progress,
            required_progress: self.required_progress,
            level,
            value_per_level: self.value_per_level,
            unlocked,
        }
    }

    /// The skill after one tick, and whether it levelled up.
    pub fn ticked(&self) -> (r: (Skill, bool))
        requires
            self.can_update(),
        ensures
            r.0 == self.updated(),
            r.1 == self.levels_up(),
    {
        let progress = self.assigned_energy + self.progress;
        if progress >= self.required_progress {
            (self.with_state(0, self.level + 1, self.unlocked), true)
        } else {
            (self.with_state(progress, self.level, self.unlocked), false)
        }
    }

    /// One tick; returns whether the skill levelled up.
    pub fn do_update(&mut self) -> (leveled_up: bool)
        requires
            old(self).can_update(),
        ensures
            *final(self) == old(self).updated(),
            leveled_up == old(self).levels_up(),
    {
        let (next, leveled_up) = self.ticked();
        *self = next;
        leveled_up
    }

    /// Starts the skill over with `required_progress` per level.
    pub fn do_rebirth(&mut self, required_progress: u32)
        ensures
            *final(self) == old(self).reborn(required_progress),
    {
        self.assigned_energy = 0;
        self.progress = 0;
        self.level = 0;
        self.required_progress = required_progress;
    }

    /// What the skill adds to its group's stat.
    pub fn value(&self) -> (r: u128)
        ensures
            r == self.value_spec(),
    {
        let level = self.level as u128;
        let per_level = self.value_per_level as u128;
        assert(level * per_level <= u64::MAX * u64::MAX) by (nonlinear_arith)
            requires
                level <= u64::MAX,
                per_level <= u64::MAX,
        ;
        level * per_level
    }
}

/// The floor below which a skill's progress per level after rebirth cannot
/// sink: 89% of its current progress per level, rounded down, and at least 1.
pub open spec fn minimum_required_progress_spec(required_progress: u32) -> u32 {
    let m = required_progress * 89 / 100;
    if m >= 1 {
        m as u32
    } else {
        1
    }
}

pub fn minimum_required_progress_after_rebirth(required_progress: u32) -> (r: u32)
    ensures
        r == minimum_required_progress_spec(required_progress),
{
    let m = (required_progress as u64) * 89 / 100;
    if m >= 1 {
        m as u32
    } else {
        1
    }
}

/// The level of the skill before position `i` (0 for the first skill).
pub open spec fn previous_level(s: Seq<Skill>, i: int) -> int {
    if i == 0 {
        0
    } else {
        s[i - 1].level as int
    }
}

/// A locked skill whose predecessor has enough levels.
pub open spec fn is_unlockable(s: Seq<Skill>, i: int) -> bool {
    &&& !s[i].unlocked
    &&& previous_level(s, i) >= UNLOCK_REQUIREMENT * i
}

/// The first unlockable position at or after `i`, or the length if none.
pub open spec fn first_unlockable_from(s: Seq<Skill>, i: nat) -> nat
    decreases s.len() - i,
{
    if i >= s.len() {
        s.len()
    } else if is_unlockable(s, i as int) {
        i
    } else {
        first_unlockable_from(s, i + 1)
    }
}

/// The group after unlocking: the first unlockable skill, if any, unlocks.
pub open spec fn unlock_step(s: Seq<Skill>) -> Seq<Skill> {
    let j = first_unlockable_from(s, 0);
    if j < s.len() {
        s.update(j as int, Skill { unlocked: true, ..s[j as int] })
    } else {
        s
    }
}

/// Every skill of the group ticks once.
pub open spec fn skills_ticked(s: Seq<Skill>) -> Seq<Skill> {
    Seq::new(s.len(), |i: int| s[i].updated())
}

/// A group after one tick of the game: skills tick, then one may unlock.
pub open spec fn group_updated(s: Seq<Skill>) -> Seq<Skill> {
    unlock_step(skills_ticked(s))
}

pub open spec fn group_can_update(s: Seq<Skill>) -> bool {
    &&& forall|i: int| 0 <= i < s.len() ==> (#[trigger] s[i]).can_update()
    &&& (s.len() - 1) * UNLOCK_REQUIREMENT <= u64::MAX
}

/// The sum of the group's skill values.
pub open spec fn group_total(s: Seq<Skill>) -> nat
    decreases s.len(),
{
    if s.len() == 0 {
        0
    } else {
        group_total(s.drop_last()) + s.last().value_spec()
    }
}

/// A stat: base plus the group's total, capped at `u128::MAX`.
pub open spec fn stat_value(base: u128, s: Seq<Skill>) -> u128 {
    if base + group_total(s) > u128::MAX {
        u128::MAX
    } else {
        (base + group_total(s)) as u128
    }
}

/// The group after a rebirth: every skill starts over with its new progress
/// per level, and only the first skill stays unlocked.
pub open spec fn group_reborn(s: Seq<Skill>, required: Seq<u32>) -> Seq<Skill> {
    Seq::new(s.len(), |i: int| Skill { unlocked: i == 0, ..s[i].reborn(required[i]) })
}

/// Ticks every skill of a group; returns which skills levelled up.
fn tick_group(skills: &mut Vec<Skill>) -> (leveled: Vec<bool>)
    requires
        forall|i: int| 0 <= i < old(skills).len() ==> (#[trigger] old(skills)[i]).can_update(),
    ensures
        final(skills)@ == skills_ticked(old(skills)@),
        leveled@ == Seq::new(old(skills)@.len(), |i: int| old(skills)@[i].levels_up()),
{
    let mut ticked: Vec<Skill> = Vec::new();
    let mut leveled: Vec<bool> = Vec::new();
    let n = skills.len();
    for i in 0..n
        invariant
            n == skills.len(),
            forall|j: int| 0 <= j < n ==> (#[trigger] skills[j]).can_update(),
            ticked.len() == i,
            leveled.len() == i,
            forall|j: int| 0 <= j < i ==> ticked[j] == (#[trigger] skills[j]).updated(),
            forall|j: int| 0 <= j < i ==> leveled[j] == (#[trigger] skills[j]).levels_up(),
    {
        let (next, up) = skills[i].ticked();
        ticked.push(next);
        leveled.push(up);
    }
    assert(ticked@ =~= skills_ticked(skills@));
    assert(leveled@ =~= Seq::new(skills@.len(), |i: int| skills@[i].levels_up()));
    *skills = ticked;
    leveled
}

/// Unlocks the first locked skill whose predecessor has enough levels.
fn unlock_next(skills: &mut Vec<Skill>)
    requires
        (old(skills).len() - 1) * UNLOCK_REQUIREMENT <= u64::MAX,
    ensures
        final(skills)@ == unlock_step(old(skills)@),
{
    let ghost s = skills@;
    let n = skills.len();
    let mut previous: u64 = 0;
    let mut i: usize = 0;
    while i < n
        invariant
            n == skills.len(),
            skills@ == s,
            s == old(skills)@,
            (s.len() - 1) * UNLOCK_REQUIREMENT <= u64::MAX,
            0 <= i <= n,
            previous == previous_level(s, i as int),
            first_unlockable_from(s, 0) == first_unlockable_from(s, i as nat),
        decreases n - i,
    {
        if !skills[i].unlocked {
            assert(UNLOCK_REQUIREMENT * i <= u64::MAX) by (nonlinear_arith)
                requires
                    i <= s.len() - 1,
                    (s.len() - 1) * UNLOCK_REQUIREMENT <= u64::MAX,
            ;
            let required_level = UNLOCK_REQUIREMENT * (i as u64);
            if previous >= required_level {
                let unlocked = skills[i].with_state(skills[i].progress, skills[i].level, true);
                proof {
                    assert(is_unlockable(s, i as int));
                    assert(first_unlockable_from(s, i as nat) == i);
                    assert(unlocked == (Skill { unlocked: true, ..s[i as int] }));
                }
                skills.set(i, unlocked);
                assert(skills@ =~= unlock_step(s));
                return;
            }
        }
        previous = skills[i].level;
        i = i + 1;
    }
}

/// A stat: base plus the group's total, saturating at `u128::MAX`.
fn group_stat(base: u128, skills: &Vec<Skill>) -> (r: u128)
    ensures
        r == stat_value(base, skills@),
{
    let mut acc: u128 = base;
    let n = skills.len();
    for i in 0..n
        invariant
            n == skills.len(),
            acc == stat_value(base, skills@.take(i as int)),
    {
        let v = skills[i].value();
        proof {
            assert(skills@.take(i + 1).drop_last() =~= skills@.take(i as int));
        }
        acc = acc.saturating_add(v);
    }
    assert(skills@.take(n as int) =~= skills@);
    acc
}

/// Every skill of a group starts over; only the first stays unlocked.
fn rebirth_group(skills: &mut Vec<Skill>, required: &Vec<u32>)
    requires
        old(skills).len() == required.len(),
    ensures
        final(skills)@ == group_reborn(old(skills)@, required@),
{
    let mut reborn: Vec<Skill> = Vec::new();
    let n = skills.len();
    for i in 0..n
        invariant
            n == skills.len(),
            n == required.len(),
            reborn.len() == i,
            forall|j: int|
                0 <= j < i ==> reborn[j] == (Skill {
                    unlocked: j == 0,
                    ..(#[trigger] skills[j]).reborn(required[j])
                }),
    {
        let next = Skill {
            name: skills[i].name.clone(),
            assigned_energy: 0,
            progress: 0,
            required_progress: required[i],
            level: 0,
            value_per_level: skills[i].value_per_level,
            unlocked: i == 0,
        };
        reborn.push(next);
    }
    assert(reborn@ =~= group_reborn(skills@, required@));
    *skills = reborn;
}

/// The search for an unlockable skill finds one, or reports the length.
proof fn lemma_first_unlockable(s: Seq<Skill>, i: nat)
    requires
        i <= s.len(),
    ensures
        i <= first_unlockable_from(s, i) <= s.len(),
        first_unlockable_from(s, i) < s.len() ==> is_unlockable(
            s,
            first_unlockable_from(s, i) as int,
        ),
    decreases s.len() - i,
{
    if i < s.len() && !is_unlockable(s, i as int) {
        lemma_first_unlockable(s, i + 1);
    }
}

/// A skill whose progress is below its required progress stays so through a
/// tick, and its required progress does not change.
pub proof fn lemma_progress_stays_below_required(k: Skill)
    requires
        k.progress < k.required_progress,
    ensures
        k.updated().progress < k.updated().required_progress,
        k.updated().required_progress == k.required_progress,
{
}

/// Through a tick of the game, in every group: no level drops and none rises
/// by more than one, no unlocked skill locks again, and at most one skill
/// unlocks, one whose predecessor had enough levels.
pub proof fn lemma_group_update_monotone(s: Seq<Skill>)
    requires
        group_can_update(s),
    ensures
        group_updated(s).len() == s.len(),
        forall|i: int|
            0 <= i < s.len() ==> s[i].level <= (#[trigger] group_updated(s)[i]).level <= s[i].level
                + 1,
        forall|i: int|
            0 <= i < s.len() && s[i].unlocked ==> (#[trigger] group_updated(s)[i]).unlocked,
        forall|i: int, j: int|
            0 <= i < s.len() && 0 <= j < s.len() && !s[i].unlocked && (#[trigger] group_updated(
                s,
            )[i]).unlocked && !s[j].unlocked && (#[trigger] group_updated(s)[j]).unlocked ==> i
                == j,
        forall|i: int|
            0 <= i < s.len() && !s[i].unlocked && (#[trigger] group_updated(s)[i]).unlocked
                ==> previous_level(skills_ticked(s), i) >= UNLOCK_REQUIREMENT * i,
{
    let t = skills_ticked(s);
    lemma_first_unlockable(t, 0);
}

/// After a rebirth every skill of the group is at level 0 with no progress
/// and no assigned energy, and exactly the first skill is unlocked.
pub proof fn lemma_group_reborn(s: Seq<Skill>, required: Seq<u32>)
    requires
        s.len() == required.len(),
    ensures
        group_reborn(s, required).len() == s.len(),
        forall|i: int|
            0 <= i < s.len() ==> {
                let k = #[trigger] group_reborn(s, required)[i];
                &&& k.level == 0
                &&& k.progress == 0
                &&& k.assigned_energy == 0
                &&& k.required_progress == required[i]
                &&& k.unlocked == (i == 0)
                &&& k.name == s[i].name
                &&& k.value_per_level == s[i].value_per_level
            },
{
}

/// The floor for the progress per level after rebirth is at least 1 and,
/// for a skill that needs any progress, no more than what it needs now.
pub proof fn lemma_minimum_required_progress_bounds(required_progress: u32)
    ensures
        minimum_required_progress_spec(required_progress) >= 1,
        required_progress >= 1 ==> minimum_required_progress_spec(required_progress)
            <= required_progress,
{
}

/// The unlock rule of a tick, in terms of the ticked levels: the first locked
/// skill at position `j` whose predecessor, after the tick, has at least
/// `UNLOCK_REQUIREMENT * j` levels (the first skill needs none) unlocks, and
/// no other skill changes its lock.
pub proof fn lemma_unlock_rule(s: Seq<Skill>, j: int)
    requires
        0 <= j < s.len(),
        !s[j].unlocked,
        j == 0 || s[j - 1].updated().level >= UNLOCK_REQUIREMENT * j,
        forall|k: int|
            0 <= k < j ==> s[k].unlocked || (k > 0 && s[k - 1].updated().level
                < UNLOCK_REQUIREMENT * k),
    ensures
        group_updated(s)[j].unlocked,
        forall|i: int| 0 <= i < s.len() && i != j ==> group_updated(s)[i].unlocked == s[i].unlocked,
{
    let t = skills_ticked(s);
    assert forall|k: int| 0 <= k < j implies !is_unlockable(t, k) by {
        assert(t[k] == s[k].updated());
        if k > 0 {
            assert(t[k - 1] == s[k - 1].updated());
        }
    }
    assert(t[j] == s[j].updated());
    if j > 0 {
        assert(t[j - 1] == s[j - 1].updated());
    }
    assert(is_unlockable(t, j));
    lemma_first_unlockable_is(t, 0, j as nat);
}

/// The search from `i` finds `j` when no position in between qualifies and `j`
/// does.
proof fn lemma_first_unlockable_is(s: Seq<Skill>, i: nat, j: nat)
    requires
        i <= j < s.len(),
        is_unlockable(s, j as int),
        forall|k: int| i <= k < j ==> !is_unlockable(s, k),
    ensures
        first_unlockable_from(s, i) == j,
    decreases j - i,
{
    if i < j {
        lemma_first_unlockable_is(s, i + 1, j);
    }
}

/// Without a locked skill whose predecessor, after the tick, has enough
/// levels for its position, a tick unlocks nothing.
pub proof fn lemma_no_unlock_without_requirement(s: Seq<Skill>)
    requires
        forall|k: int|
            0 <= k < s.len() ==> s[k].unlocked || (k > 0 && s[k - 1].updated().level
                < UNLOCK_REQUIREMENT * k),
    ensures
        forall|i: int| 0 <= i < s.len() ==> group_updated(s)[i].unlocked == s[i].unlocked,
{
    let t = skills_ticked(s);
    assert forall|k: int| 0 <= k < t.len() implies !is_unlockable(t, k) by {
        assert(t[k] == s[k].updated());
        if k > 0 {
            assert(t[k - 1] == s[k - 1].updated());
        }
    }
    lemma_first_unlockable(t, 0);
}

/// A rebirth right after a rebirth with the same progress per level changes
/// nothing more.
pub proof fn lemma_skill_rebirth_idempotent(k: Skill, required_progress: u32)
    ensures
        k.reborn(required_progress).reborn(required_progress) == k.reborn(required_progress),
{
}

/// A group rebirth right after a group rebirth with the same progress per
/// level changes nothing more.
pub proof fn lemma_group_rebirth_idempotent(s: Seq<Skill>, required: Seq<u32>)
    requires
        s.len() == required.len(),
    ensures
        group_reborn(group_reborn(s, required), required) == group_reborn(s, required),
{
    assert(group_reborn(group_reborn(s, required), required) =~= group_reborn(s, required));
}

/// A stat is its base plus the group's total, that is the sum over the group
/// of level times value per level, wherever that sum fits a `u128`.
pub proof fn lemma_stat_is_base_plus_total(base: u128, s: Seq<Skill>)
    requires
        base + group_total(s) <= u128::MAX,
    ensures
        stat_value(base, s) == base + group_total(s),
        s.len() > 0 ==> group_total(s) == group_total(s.drop_last()) + s.last().level
            * s.last().value_per_level,
{
}

/// A stat is never below its base value.
pub proof fn lemma_stat_at_least_base(base: u128, s: Seq<Skill>)
    ensures
        stat_value(base, s) >= base,
{
}

pub struct Training {
    pub attack: u128,
    pub defense: u128,
    pub hitpoints: u128,
    pub attack_skills: Vec<Skill>,
    pub defense_skills: Vec<Skill>,
    pub hitpoint_skills: Vec<Skill>,
}

/// A skill as a new game creates it.
pub open spec fn is_new_game_skill(
    k: Skill,
    name: Seq<char>,
    required_progress: u32,
    value_per_level: u64,
    unlocked: bool,
) -> bool {
    &&& k.name@ == name
    &&& k.assigned_energy == 0
    &&& k.progress == 0
    &&& k.required_progress == required_progress
    &&& k.level == 0
    &&& k.value_per_level == value_per_level
    &&& k.unlocked == unlocked
}

/// A group as a new game creates it: five skills needing 2000, 10000, 30000,
/// 60000 and 100000 progress per level, each worth ten times the previous
/// one, starting at `unit`; only the first is unlocked.
pub open spec fn is_new_game_group(s: Seq<Skill>, names: Seq<Seq<char>>, unit: u64) -> bool {
    &&& s.len() == 5
    &&& names.len() == 5
    &&& is_new_game_skill(s[0], names[0], 2000, unit, true)
    &&& is_new_game_skill(s[1], names[1], 10000, (unit * 10) as u64, false)
    &&& is_new_game_skill(s[2], names[2], 30000, (unit * 100) as u64, false)
    &&& is_new_game_skill(s[3], names[3], 60000, (unit * 1000) as u64, false)
    &&& is_new_game_skill(s[4], names[4], 100000, (unit * 10000) as u64, false)
}

impl Training {
    pub open spec fn can_update(&self) -> bool {
        &&& group_can_update(self.attack_skills@)
        &&& group_can_update(self.defense_skills@)
        &&& group_can_update(self.hitpoint_skills@)
    }

    pub fn new_game() -> (r: Training)
        ensures
            r.attack == BASE_ATTACK,
            r.defense == BASE_DEFENSE,
            r.hitpoints == BASE_HITPOINTS,
            is_new_game_group(
                r.attack_skills@,
                seq![
                    "Strength"@,
                    "Punch"@,
                    "Sword"@,
                    "Basic combo"@,
                    "Awesome combo"@,
                ],
                1,
            ),
            is_new_game_group(
                r.defense_skills@,
                seq![
                    "Flexibility"@,
                    "Evasion"@,
                    "Limbo"@,
                    "Parry"@,
                    "Catch arrows"@,
                ],
                1,
            ),
            is_new_game_group(
                r.hitpoint_skills@,
                seq![
                    "Healthy nutrition"@,
                    "Thicker skin"@,
                    "Pain endurance"@,
                    "Sleep on bed of nails"@,
                    "Simply don't die"@,
                ],
                1000,
            ),
    {
        let attack_skills = vec![
            Skill::new_game("Strength", 2000, 1, true),
            Skill::new_game("Punch", 10000, 10, false),
            Skill::new_game("Sword", 30000, 100, false),
            Skill::new_game("Basic combo", 60000, 1000, false),
            Skill::new_game("Awesome combo", 100000, 10000, false),
        ];
        let defense_skills = vec![
            Skill::new_game("Flexibility", 2000, 1, true),
            Skill::new_game("Evasion", 10000, 10, false),
            Skill::new_game("Limbo", 30000, 100, false),
            Skill::new_game("Parry", 60000, 1000, false),
            Skill::new_game("Catch arrows", 100000, 10000, false),
        ];
        let hitpoint_skills = vec![
            Skill::new_game("Healthy nutrition", 2000, 1000, true),
            Skill::new_game("Thicker skin", 10000, 10000, false),
            Skill::new_game("Pain endurance", 30000, 100000, false),
            Skill::new_game("Sleep on bed of nails", 60000, 1000000, false),
            Skill::new_game("Simply don't die", 100000, 10000000, false),
        ];
        Training {
            attack: BASE_ATTACK,
            defense: BASE_DEFENSE,
            hitpoints: BASE_HITPOINTS,
            attack_skills,
            defense_skills,
            hitpoint_skills,
        }
    }

    /// One tick: every skill ticks, each group may unlock one skill, and the
    /// stats are recomputed. Returns, per group, which skills levelled up.
    pub fn do_update(&mut self) -> (leveled: (Vec<bool>, Vec<bool>, Vec<bool>))
        requires
            old(self).can_update(),
        ensures
            final(self).attack_skills@ == group_updated(old(self).attack_skills@),
            final(self).defense_skills@ == group_updated(old(self).defense_skills@),
            final(self).hitpoint_skills@ == group_updated(old(self).hitpoint_skills@),
            final(self).attack == stat_value(BASE_ATTACK, final(self).attack_skills@),
            final(self).defense == stat_value(BASE_DEFENSE, final(self).defense_skills@),
            final(self).hitpoints == stat_value(BASE_HITPOINTS, final(self).hitpoint_skills@),
            BASE_ATTACK + group_total(final(self).attack_skills@) <= u128::MAX ==> final(self).attack
                == BASE_ATTACK + group_total(final(self).attack_skills@),
            BASE_DEFENSE + group_total(final(self).defense_skills@) <= u128::MAX
                ==> final(self).defense == BASE_DEFENSE + group_total(final(self).defense_skills@),
            BASE_HITPOINTS + group_total(final(self).hitpoint_skills@) <= u128::MAX
                ==> final(self).hitpoints == BASE_HITPOINTS + group_total(
                final(self).hitpoint_skills@,
            ),
            leveled.0@ == Seq::new(
                old(self).attack_skills@.len(),
                |i: int| old(self).attack_skills@[i].levels_up(),
            ),
            leveled.1@ == Seq::new(
                old(self).defense_skills@.len(),
                |i: int| old(self).defense_skills@[i].levels_up(),
            ),
            leveled.2@ == Seq::new(
                old(self).hitpoint_skills@.len(),
                |i: int| old(self).hitpoint_skills@[i].levels_up(),
            ),
    {
        let attack_leveled = tick_group(&mut self.attack_skills);
        let defense_leveled = tick_group(&mut self.defense_skills);
        let hitpoint_leveled = tick_group(&mut self.hitpoint_skills);
        unlock_next(&mut self.attack_skills);
        unlock_next(&mut self.defense_skills);
        unlock_next(&mut self.hitpoint_skills);
        self.attack = group_stat(BASE_ATTACK, &self.attack_skills);
        self.defense = group_stat(BASE_DEFENSE, &self.defense_skills);
        self.hitpoints = group_stat(BASE_HITPOINTS, &self.hitpoint_skills);
        (attack_leveled, defense_leveled, hitpoint_leveled)
    }

    /// Starts training over: base stats, every skill at level 0 with its new
    /// progress per level, only the first skill of each group unlocked.
    pub fn do_rebirth(
        &mut self,
        attack_required: &Vec<u32>,
        defense_required: &Vec<u32>,
        hitpoint_required: &Vec<u32>,
    )
        requires
            old(self).attack_skills.len() == attack_required.len(),
            old(self).defense_skills.len() == defense_required.len(),
            old(self).hitpoint_skills.len() == hitpoint_required.len(),
        ensures
            final(self).attack == BASE_ATTACK,
            final(self).defense == BASE_DEFENSE,
            final(self).hitpoints == BASE_HITPOINTS,
            final(self).attack_skills@ == group_reborn(old(self).attack_skills@, attack_required@),
            final(self).defense_skills@ == group_reborn(
                old(self).defense_skills@,
                defense_required@,
            ),
            final(self).hitpoint_skills@ == group_reborn(
                old(self).hitpoint_skills@,
                hitpoint_required@,
            ),
    {
        self.attack = BASE_ATTACK;
        self.defense = BASE_DEFENSE;
        self.hitpoints = BASE_HITPOINTS;
        rebirth_group(&mut self.attack_skills, attack_required);
        rebirth_group(&mut self.defense_skills, defense_required);
        rebirth_group(&mut self.hitpoint_skills, hitpoint_required);
    }
}

} // verus!
