use idle_fighter::bignat::BigNat;
use idle_fighter::energy::{Energy, TICKS_PER_ENERGY};
use idle_fighter::training::Training;

fn value(n: &BigNat) -> u64 {
    n.to_u32().unwrap() as u64
}

fn assigned(t: &Training) -> u64 {
    t.attack_skills
        .iter()
        .chain(t.defense_skills.iter())
        .chain(t.hitpoint_skills.iter())
        .map(|s| s.assigned_energy as u64)
        .sum()
}

fn accounted(e: &Energy, t: &Training) -> bool {
    value(e.idle_energy()) + assigned(t) == value(e.energy())
}

#[test]
fn idle_plus_assigned_energy_is_all_energy() {
    let mut e = Energy::new_game();
    let mut t = Training::new_game();
    assert!(accounted(&e, &t));
    for tick in 0..(TICKS_PER_ENERGY * 30) {
        e.do_update();
        t.do_update();
        if tick % 97 == 0 {
            e.assign_idle_energy(&mut t.attack_skills[0].assigned_energy, &BigNat::from_u32(2));
            e.assign_idle_energy(&mut t.hitpoint_skills[0].assigned_energy, &BigNat::from_u32(1));
        }
        if tick % 389 == 0 {
            e.reclaim_idle_energy(&mut t.attack_skills[0].assigned_energy, 1);
        }
        assert!(accounted(&e, &t));
    }
    assert!(assigned(&t) > 0);
    e.do_rebirth();
    let required = vec![2000, 10000, 30000, 60000, 100000];
    t.do_rebirth(&required, &required, &required);
    assert!(accounted(&e, &t));
    assert_eq!(value(e.energy()), 0);
}

#[test]
fn skill_progress_stays_below_required() {
    let mut t = Training::new_game();
    t.defense_skills[0].assigned_energy = 777;
    for _ in 0..100 {
        t.do_update();
        let s = &t.defense_skills[0];
        assert!(s.progress < s.required_progress);
    }
    // Progress beyond a full bar is lost, so each level takes three ticks.
    assert_eq!(t.defense_skills[0].level, 33);
}
