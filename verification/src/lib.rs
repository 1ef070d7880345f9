//! The rules of an idle fighting game: energy that fills over time and is
//! assigned to skills, skill training and unlocking, card drafting with a
//! cooldown, and the text and number handling the game's screens rely on.

pub mod bignat;
pub mod transfer;
pub mod energy;
pub mod training;
pub mod drafting;
pub mod text;
pub mod number_format;
pub mod accounting;
