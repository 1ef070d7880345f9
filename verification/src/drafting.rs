//! Drafting: every draft takes a random card from the selected deck into the
//! inventory, and then drafting waits for a cooldown. Time is counted in
//! nanoseconds since the Unix epoch.

use rand::distr::Uniform;
use rand::rngs::SmallRng;
use rand::RngExt;
use vstd::prelude::*;

verus! {

/// Where card images are served from.
pub const ART_ASSET_FOLDER: &'static str = "/assets/art";

/// The image of a card whose definition names none.
pub const MISSING_IMAGE: &'static str = "missing.png";

/// The wait between two drafts: one millisecond.
pub const DRAFT_COOLDOWN_NANOS: i128 = 1_000_000;

#[verifier::external_type_specification]
#[verifier::external_body]
pub struct ExSmallRng(SmallRng);

/// The result of `titlecase::titlecase` on a text.
pub uninterp spec fn title_case(input: Seq<char>) -> Seq<char>;

/// `titlecase::titlecase` turns a text into title case; its result depends
/// on the text alone, and is named `title_case`.
pub assume_specification[ titlecase::titlecase ](input: &str) -> (r: String)
    ensures
        r@ == title_case(input@),
;

/// Draws an index below `count` through `rand`'s `Uniform::new(0, count)`
/// sampled with the given generator. `Uniform::new` fails on an empty range,
/// so `count` must be positive. Claims only that the index is in range: which
/// one comes out rests on chance.
#[verifier::external_body]
fn sample_index(rng: &mut SmallRng, count: usize) -> (r: usize)
    requires
        count > 0,
    ensures
        r < count,
{
    rng.sample(Uniform::new(0, count).unwrap())
}

/// A card as a deck file describes it.
pub struct CardDefinition {
    pub name: String,
    pub description: String,
    pub image: Option<String>,
    pub rarity: u8,
}

/// A deck as a deck file describes it.
pub struct DeckDefinition {
    pub name: String,
    pub description: String,
    pub initial_card_level: u8,
    pub cards: Vec<CardDefinition>,
}

pub struct CardTemplate {
    pub name: String,
    pub description: String,
    pub image_path: String,
    pub rarity: u8,
}

pub struct Card {
    pub template: CardTemplate,
    pub level: u8,
}

pub struct Deck {
    pub name: String,
    pub description: String,
    pub initial_card_level: u8,
    pub cards: Vec<CardTemplate>,
}

/// The path of a card's image: the art folder, a slash, and the image the
/// definition names or the placeholder.
pub open spec fn image_path_spec(image: Option<String>) -> Seq<char> {
    ART_ASSET_FOLDER@ + "/"@ + match image {
        Some(i) => i@,
        None => MISSING_IMAGE@,
    }
}

/// The template that a card definition yields.
pub open spec fn template_matches(t: CardTemplate, def: CardDefinition) -> bool {
    &&& t.name@ == title_case(def.name@)
    &&& t.description == def.description
    &&& t.image_path@ == image_path_spec(def.image)
    &&& t.rarity == def.rarity
}

impl CardTemplate {
    pub fn from_definition(def: CardDefinition) -> (r: CardTemplate)
        ensures
            template_matches(r, def),
    {
        let name = titlecase::titlecase(def.name.as_str());
        let mut image_path = String::from_str(ART_ASSET_FOLDER);
        image_path.append("/");
        match &def.image {
            Some(image) => image_path.append(image.as_str()),
            None => image_path.append(MISSING_IMAGE),
        }
        CardTemplate { name, description: def.description, image_path, rarity: def.rarity }
    }
}

impl Clone for CardTemplate {
    fn clone(&self) -> (r: CardTemplate)
        ensures
            r == *self,
    {
        CardTemplate {
            name: self.name.clone(),
            description: self.description.clone(),
            image_path: self.image_path.clone(),
            rarity: self.rarity,
        }
    }
}

impl Deck {
    pub fn from_definition(def: DeckDefinition) -> (r: Deck)
        ensures
            r.name == def.name,
            r.description == def.description,
            r.initial_card_level == def.initial_card_level,
            r.cards.len() == def.cards.len(),
            forall|i: int| 0 <= i < r.cards.len() ==> template_matches(#[trigger] r.cards[i], def.cards[i]),
    {
        let DeckDefinition { name, description, initial_card_level, cards: definitions } = def;
        let ghost defs = definitions@;
        let mut rest = definitions;
        let mut cards: Vec<CardTemplate> = Vec::new();
        while rest.len() > 0
            invariant
                cards.len() + rest.len() == defs.len(),
                rest@ == defs.skip(cards.len() as int),
                forall|j: int| 0 <= j < cards.len() ==> template_matches(#[trigger] cards[j], defs[j]),
            decreases rest.len(),
        {
            let d = rest.remove(0);
            proof {
                assert(rest@ =~= defs.skip(cards.len() + 1));
            }
            cards.push(CardTemplate::from_definition(d));
        }
        Deck { name, description, initial_card_level, cards }
    }

    /// The card a draft of the template at `index` yields.
    pub fn card_at(&self, index: usize) -> (r: Card)
        requires
            index < self.cards.len(),
        ensures
            r.template == self.cards[index as int],
            r.level == self.initial_card_level,
    {
        Card { template: self.cards[index].clone(), level: self.initial_card_level }
    }

    /// Draws a random card of this deck at the deck's initial card level.
    pub fn draft(&self, rng: &mut SmallRng) -> (r: Card)
        requires
            self.cards.len() > 0,
        ensures
            exists|i: int|
                0 <= i < self.cards.len() && r.template == #[trigger] self.cards[i],
            r.level == self.initial_card_level,
    {
        let index = sample_index(rng, self.cards.len());
        self.card_at(index)
    }
}

/// Whether the cooldown since the last draft has passed at `now`.
pub open spec fn cooldown_passed(now: int, last_draft: int, cooldown: int) -> bool {
    now >= last_draft + cooldown
}

/// The part of the cooldown still to wait at `now`, if any.
pub open spec fn remaining_cooldown_spec(now: int, last_draft: int, cooldown: int) -> Option<int> {
    let remaining = cooldown - (now - last_draft);
    if remaining > 0 {
        Some(remaining)
    } else {
        None
    }
}

pub open spec fn fits_i128(x: int) -> bool {
    i128::MIN <= x <= i128::MAX
}

pub struct Drafting {
    pub decks: Vec<Deck>,
    pub current_timestamp: i128,
    pub rng: SmallRng,
    pub inventory: Vec<Card>,
    pub selected_deck: usize,
    pub last_draft_timestamp: i128,
    pub draft_cooldown: i128,
    pub can_draft: bool,
}

impl Drafting {
    /// A new game at time `now`: nothing drafted yet, and drafting possible
    /// at once.
    pub fn new_game(decks: Vec<Deck>, now: i128, rng: SmallRng) -> (r: Drafting)
        requires
            fits_i128(now - DRAFT_COOLDOWN_NANOS),
        ensures
            r.decks == decks,
            r.current_timestamp == now,
            r.rng == rng,
            r.inventory@.len() == 0,
            r.selected_deck == 0,
            r.last_draft_timestamp == now - DRAFT_COOLDOWN_NANOS,
            r.draft_cooldown == DRAFT_COOLDOWN_NANOS,
            r.can_draft,
    {
        Drafting {
            decks,
            current_timestamp: now,
            rng,
            inventory: Vec::new(),
            selected_deck: 0,
            last_draft_timestamp: now - DRAFT_COOLDOWN_NANOS,
            draft_cooldown: DRAFT_COOLDOWN_NANOS,
            can_draft: true,
        }
    }

    /// The clock reads `now`: drafting is possible once the cooldown since
    /// the last draft has passed.
    pub fn do_update(&mut self, now: i128)
        requires
            fits_i128(old(self).last_draft_timestamp + old(self).draft_cooldown),
        ensures
            *final(self) == (Drafting {
                current_timestamp: now,
                can_draft: cooldown_passed(
                    now as int,
                    old(self).last_draft_timestamp as int,
                    old(self).draft_cooldown as int,
                ),
                ..*old(self)
            }),
    {
        self.current_timestamp = now;
        self.can_draft = now >= self.last_draft_timestamp + self.draft_cooldown;
    }

    /// A rebirth leaves drafting as it is.
    pub fn do_rebirth(&mut self)
        ensures
            *final(self) == *old(self),
    {
    }

    /// Drafts a card from the selected deck when drafting is possible, and
    /// starts the cooldown; otherwise does nothing.
    pub fn draft(&mut self)
        requires
            old(self).can_draft ==> old(self).selected_deck < old(self).decks.len()
                && old(self).decks[old(self).selected_deck as int].cards.len() > 0,
        ensures
            !old(self).can_draft ==> *final(self) == *old(self),
            old(self).can_draft ==> {
                let deck = old(self).decks[old(self).selected_deck as int];
                &&& final(self).inventory@.len() == old(self).inventory@.len() + 1
                &&& final(self).inventory@.drop_last() == old(self).inventory@
                &&& exists|i: int|
                    0 <= i < deck.cards.len() && final(self).inventory@.last().template
                        == #[trigger] deck.cards[i]
                &&& final(self).inventory@.last().level == deck.initial_card_level
                &&& final(self).last_draft_timestamp == old(self).current_timestamp
                &&& final(self).decks == old(self).decks
                &&& final(self).current_timestamp == old(self).current_timestamp
                &&& final(self).selected_deck == old(self).selected_deck
                &&& final(self).draft_cooldown == old(self).draft_cooldown
                &&& final(self).can_draft == old(self).can_draft
            },
    {
        if !self.can_draft {
            return;
        }
        self.last_draft_timestamp = self.current_timestamp;
        let selected = self.selected_deck;
        let card = self.decks[selected].draft(&mut self.rng);
        self.inventory.push(card);
        proof {
            assert(self.inventory@.drop_last() =~= old(self).inventory@);
        }
    }

    /// The part of the cooldown still to wait, if any.
    pub fn remaining_cooldown(&self) -> (r: Option<i128>)
        requires
            fits_i128(self.current_timestamp - self.last_draft_timestamp),
            fits_i128(self.draft_cooldown - (self.current_timestamp - self.last_draft_timestamp)),
        ensures
            r matches Some(x) ==> remaining_cooldown_spec(
                self.current_timestamp as int,
                self.last_draft_timestamp as int,
                self.draft_cooldown as int,
            ) == Some(x as int),
            r is None <==> remaining_cooldown_spec(
                self.current_timestamp as int,
                self.last_draft_timestamp as int,
                self.draft_cooldown as int,
            ) is None,
    {
        let elapsed = self.current_timestamp - self.last_draft_timestamp;
        let remaining = self.draft_cooldown - elapsed;
        if remaining > 0 {
            Some(remaining)
        } else {
            None
        }
    }
}

/// Drafting is possible exactly when no cooldown remains: after the clock
/// update, `can_draft` and `remaining_cooldown` agree.
pub proof fn lemma_can_draft_iff_no_cooldown(now: int, last_draft: int, cooldown: int)
    ensures
        cooldown_passed(now, last_draft, cooldown) <==> remaining_cooldown_spec(
            now,
            last_draft,
            cooldown,
        ) is None,
{
}

/// Right after a draft at `now`, drafting waits: with a positive cooldown, the
/// whole cooldown remains and the cooldown has not passed.
pub proof fn lemma_draft_starts_cooldown(now: int, cooldown: int)
    requires
        cooldown > 0,
    ensures
        !cooldown_passed(now, now, cooldown),
        remaining_cooldown_spec(now, now, cooldown) == Some(cooldown),
{
}

} // verus!
