//! Terminal-skill flashcards: a spaced-repetition scheduler and the logic of a
//! sandboxed review session (control-sequence stripping and bounded matching).

pub mod card_state;
pub mod f64_model;
pub mod normalizer;
pub mod card;
pub mod session;
pub mod time_utils;
pub mod deck_state;
pub mod args;
