use idle_fighter::training::{
    minimum_required_progress_after_rebirth, Skill, Training, BASE_HITPOINTS, UNLOCK_REQUIREMENT,
};

#[test]
fn training_new_game_table() {
    let t = Training::new_game();
    assert_eq!((t.attack, t.defense, t.hitpoints), (1, 1, 1000));
    let names: Vec<&str> = t.attack_skills.iter().map(|s| s.name.as_str()).collect();
    assert_eq!(names, vec!["Strength", "Punch", "Sword", "Basic combo", "Awesome combo"]);
    let required: Vec<u32> = t.defense_skills.iter().map(|s| s.required_progress).collect();
    assert_eq!(required, vec![2000, 10000, 30000, 60000, 100000]);
    let values: Vec<u64> = t.hitpoint_skills.iter().map(|s| s.value_per_level).collect();
    assert_eq!(values, vec![1000, 10000, 100000, 1000000, 10000000]);
    assert_eq!(t.hitpoint_skills[4].name, "Simply don't die");
    let unlocked: Vec<bool> = t.attack_skills.iter().map(|s| s.unlocked).collect();
    assert_eq!(unlocked, vec![true, false, false, false, false]);
}

#[test]
fn skill_progress_and_level_up() {
    let mut s = Skill::new_game("Strength", 10, 3, true);
    s.assigned_energy = 4;
    assert!(!s.do_update());
    assert_eq!((s.progress, s.level), (4, 0));
    assert!(!s.do_update());
    assert_eq!((s.progress, s.level), (8, 0));
    assert!(s.do_update());
    assert_eq!((s.progress, s.level), (0, 1));
    assert_eq!(s.value(), 3);
}

#[test]
fn skill_rebirth_starts_over() {
    let mut s = Skill::new_game("Punch", 10, 3, true);
    s.assigned_energy = 9;
    s.progress = 5;
    s.level = 77;
    s.do_rebirth(8);
    assert_eq!((s.assigned_energy, s.progress, s.level, s.required_progress), (0, 0, 0, 8));
    assert!(s.unlocked);
    assert_eq!(s.name, "Punch");
}

#[test]
fn minimum_required_progress_is_89_percent() {
    assert_eq!(minimum_required_progress_after_rebirth(2000), 1780);
    assert_eq!(minimum_required_progress_after_rebirth(100000), 89000);
    assert_eq!(minimum_required_progress_after_rebirth(1), 1);
    assert_eq!(minimum_required_progress_after_rebirth(0), 1);
    assert_eq!(minimum_required_progress_after_rebirth(u32::MAX), 3822520892);
}

#[test]
fn training_update_levels_and_stats() {
    let mut t = Training::new_game();
    t.attack_skills[0].assigned_energy = 2000;
    t.hitpoint_skills[0].assigned_energy = 1000;
    let (a, d, h) = t.do_update();
    assert_eq!(a, vec![true, false, false, false, false]);
    assert_eq!(d, vec![false; 5]);
    assert_eq!(h, vec![false; 5]);
    assert_eq!(t.attack_skills[0].level, 1);
    assert_eq!(t.attack, 2);
    assert_eq!(t.hitpoint_skills[0].progress, 1000);
    let (_, _, h) = t.do_update();
    assert_eq!(h[0], true);
    assert_eq!(t.hitpoints, BASE_HITPOINTS + 1000);
}

#[test]
fn training_unlocks_one_skill_when_predecessor_is_strong_enough() {
    let mut t = Training::new_game();
    t.attack_skills[0].level = UNLOCK_REQUIREMENT - 1;
    t.do_update();
    assert!(!t.attack_skills[1].unlocked);
    t.attack_skills[0].level = UNLOCK_REQUIREMENT;
    t.attack_skills[1].level = 2 * UNLOCK_REQUIREMENT;
    t.do_update();
    assert!(t.attack_skills[1].unlocked);
    assert!(!t.attack_skills[2].unlocked);
    t.do_update();
    assert!(t.attack_skills[2].unlocked);
    assert!(!t.attack_skills[3].unlocked);
    assert_eq!(t.attack, 1 + 5000 + 10 * 10000);
}

#[test]
fn training_first_skill_unlocks_even_if_locked() {
    let mut t = Training::new_game();
    t.defense_skills[0].unlocked = false;
    t.do_update();
    assert!(t.defense_skills[0].unlocked);
}

#[test]
fn training_rebirth() {
    let mut t = Training::new_game();
    t.attack_skills[1].unlocked = true;
    t.attack_skills[1].level = 12;
    t.attack_skills[1].assigned_energy = 3;
    t.attack = 99;
    let required = vec![1, 2, 3, 4, 5];
    t.do_rebirth(&required, &required, &required);
    assert_eq!((t.attack, t.defense, t.hitpoints), (1, 1, 1000));
    assert_eq!(t.attack_skills[1].level, 0);
    assert_eq!(t.attack_skills[1].assigned_energy, 0);
    assert!(!t.attack_skills[1].unlocked);
    assert!(t.attack_skills[0].unlocked);
    assert_eq!(t.hitpoint_skills[4].required_progress, 5);
}

#[test]
fn training_rebirth_twice_is_rebirth_once() {
    let mut t = Training::new_game();
    t.attack_skills[2].unlocked = true;
    t.attack_skills[2].level = 40;
    t.defense_skills[0].assigned_energy = 9;
    let required = vec![7, 8, 9, 10, 11];
    t.do_rebirth(&required, &required, &required);
    let once: Vec<(u32, u32, u32, u64, bool)> = t
        .attack_skills
        .iter()
        .chain(t.defense_skills.iter())
        .chain(t.hitpoint_skills.iter())
        .map(|s| (s.assigned_energy, s.progress, s.required_progress, s.level, s.unlocked))
        .collect();
    t.do_rebirth(&required, &required, &required);
    let twice: Vec<(u32, u32, u32, u64, bool)> = t
        .attack_skills
        .iter()
        .chain(t.defense_skills.iter())
        .chain(t.hitpoint_skills.iter())
        .map(|s| (s.assigned_energy, s.progress, s.required_progress, s.level, s.unlocked))
        .collect();
    assert_eq!(once, twice);
    assert_eq!((t.attack, t.defense, t.hitpoints), (1, 1, 1000));
}
