# idle_fighter

The rules of an idle fighting game, as a verified library with a Dioxus
front end around it.

- `src/` is the library, verified with Verus:
  - `bignat.rs`: natural numbers of any size (base-2^32 digits), with the
    arithmetic done by `num::BigUint`.
  - `transfer.rs`: moving energy between the idle pool and a skill.
  - `energy.rs`: energy that fills once per second up to a cap, and the cap
    after rebirth that grows once per minute.
  - `training.rs`: skill progress, levels, unlocking and the stats.
  - `accounting.rs`: idle plus assigned energy is all the energy, through
    every tick, shift and rebirth.
  - `drafting.rs`: decks, cards, random drafts and the draft cooldown.
  - `text.rs`: story text split into trimmed paragraphs.
  - `number_format.rs`: thousands separators and suffix positions.
- `tests/` runs the library on concrete values.
- `app/` is the game's window: the bossfight and rebirth factors (which are
  floating-point), the clock, the deck and boss files, and the views. It
  reads `data/bosses.toml` and `data/decks.toml` at start-up.
