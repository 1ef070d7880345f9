use idle_fighter::drafting::{
    CardDefinition, CardTemplate, Deck, DeckDefinition, Drafting, DRAFT_COOLDOWN_NANOS,
};
use rand::rngs::SmallRng;
use rand::SeedableRng;

fn card_def(name: &str, image: Option<&str>) -> CardDefinition {
    CardDefinition {
        name: name.to_string(),
        description: format!("about {name}"),
        image: image.map(|s| s.to_string()),
        rarity: 2,
    }
}

fn deck() -> Deck {
    Deck::from_definition(DeckDefinition {
        name: "Starter".to_string(),
        description: "The first deck".to_string(),
        initial_card_level: 3,
        cards: vec![card_def("fire ball", Some("fire.png")), card_def("ice wall", None)],
    })
}

#[test]
fn card_template_from_definition() {
    let t = CardTemplate::from_definition(card_def("fire ball", Some("fire.png")));
    assert_eq!(t.name, "Fire Ball");
    assert_eq!(t.description, "about fire ball");
    assert_eq!(t.image_path, "/assets/art/fire.png");
    assert_eq!(t.rarity, 2);
    let t = CardTemplate::from_definition(card_def("ice wall", None));
    assert_eq!(t.image_path, "/assets/art/missing.png");
}

#[test]
fn deck_from_definition_keeps_card_order() {
    let d = deck();
    assert_eq!(d.name, "Starter");
    assert_eq!(d.initial_card_level, 3);
    let names: Vec<&str> = d.cards.iter().map(|c| c.name.as_str()).collect();
    assert_eq!(names, vec!["Fire Ball", "Ice Wall"]);
}

#[test]
fn drafting_draws_from_selected_deck_and_waits() {
    let now: i128 = 1_700_000_000_000_000_000;
    let mut d = Drafting::new_game(vec![deck()], now, SmallRng::seed_from_u64(7));
    assert!(d.can_draft);
    assert_eq!(d.remaining_cooldown(), None);
    d.draft();
    assert_eq!(d.inventory.len(), 1);
    assert_eq!(d.inventory[0].level, 3);
    assert!(["Fire Ball", "Ice Wall"].contains(&d.inventory[0].template.name.as_str()));
    assert_eq!(d.last_draft_timestamp, now);
    assert_eq!(d.remaining_cooldown(), Some(DRAFT_COOLDOWN_NANOS));
    d.do_update(now + 400_000);
    assert!(!d.can_draft);
    assert_eq!(d.remaining_cooldown(), Some(600_000));
    d.draft();
    assert_eq!(d.inventory.len(), 1);
    d.do_update(now + DRAFT_COOLDOWN_NANOS);
    assert!(d.can_draft);
    assert_eq!(d.remaining_cooldown(), None);
    d.draft();
    assert_eq!(d.inventory.len(), 2);
    d.do_rebirth();
    assert_eq!(d.inventory.len(), 2);
}
