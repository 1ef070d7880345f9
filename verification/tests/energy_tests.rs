use idle_fighter::bignat::BigNat;
use idle_fighter::energy::{Energy, ENERGY_PER_MAX_ENERGY_STEP, INITIAL_MAX_ENERGY, TICKS_PER_ENERGY};

fn n(b: &BigNat) -> u32 {
    b.to_u32().unwrap()
}

#[test]
fn energy_new_game() {
    let e = Energy::new_game();
    assert_eq!(n(e.energy()), 0);
    assert_eq!(n(e.idle_energy()), 0);
    assert_eq!(n(e.max_energy()), 100);
    assert_eq!(n(e.max_energy_after_rebirth()), 100);
    assert_eq!(e.energy_progress(), 0);
    assert_eq!(e.ticks_per_energy(), 50);
    assert_eq!(e.energy_per_max_energy_step(), 60);
    assert_eq!(INITIAL_MAX_ENERGY, 100);
}

#[test]
fn energy_fills_once_per_second() {
    let mut e = Energy::new_game();
    for _ in 0..TICKS_PER_ENERGY - 1 {
        e.do_update();
    }
    assert_eq!(n(e.energy()), 0);
    assert_eq!(e.energy_progress(), 49);
    e.do_update();
    assert_eq!(n(e.energy()), 1);
    assert_eq!(n(e.idle_energy()), 1);
    assert_eq!(e.energy_progress(), 0);
    assert_eq!(e.max_energy_after_rebirth_progress(), 1);
}

#[test]
fn energy_cap_after_rebirth_grows_every_minute() {
    let mut e = Energy::new_game();
    for _ in 0..(TICKS_PER_ENERGY * ENERGY_PER_MAX_ENERGY_STEP) {
        e.do_update();
    }
    assert_eq!(n(e.energy()), 60);
    assert_eq!(n(e.max_energy_after_rebirth()), 101);
    assert_eq!(e.max_energy_after_rebirth_progress(), 0);
    assert_eq!(n(e.max_energy()), 100);
}

#[test]
fn energy_stops_at_cap_but_progress_goes_on() {
    let mut e = Energy::new_game();
    for _ in 0..(TICKS_PER_ENERGY * 120) {
        e.do_update();
    }
    assert_eq!(n(e.energy()), 100);
    assert_eq!(n(e.idle_energy()), 100);
    assert_eq!(n(e.max_energy_after_rebirth()), 102);
}

#[test]
fn energy_rebirth_resets_and_raises_cap() {
    let mut e = Energy::new_game();
    for _ in 0..(TICKS_PER_ENERGY * ENERGY_PER_MAX_ENERGY_STEP + 10) {
        e.do_update();
    }
    e.do_rebirth();
    assert_eq!(n(e.energy()), 0);
    assert_eq!(n(e.idle_energy()), 0);
    assert_eq!(n(e.max_energy()), 101);
    assert_eq!(n(e.max_energy_after_rebirth()), 101);
    assert_eq!(e.energy_progress(), 0);
    assert_eq!(e.max_energy_after_rebirth_progress(), 0);
    e.do_rebirth();
    assert_eq!(n(e.max_energy()), 101);
}

#[test]
fn energy_assign_and_reclaim() {
    let mut e = Energy::new_game();
    for _ in 0..(TICKS_PER_ENERGY * 5) {
        e.do_update();
    }
    let mut assigned: u32 = 0;
    e.assign_idle_energy(&mut assigned, &BigNat::from_u32(3));
    assert_eq!((n(e.idle_energy()), assigned, n(e.energy())), (2, 3, 5));
    e.assign_idle_energy(&mut assigned, &BigNat::from_u32(10));
    assert_eq!((n(e.idle_energy()), assigned), (0, 5));
    e.reclaim_idle_energy(&mut assigned, 4);
    assert_eq!((n(e.idle_energy()), assigned, n(e.energy())), (4, 1, 5));
}
