//! A two-player card-slapping game (Egyptian Ratscrew): the card model, the
//! deck, the detector of scoring combinations, the players' hands and side
//! piles, and the turn engine that drives a session to its end.
//!
//! Every function is a Verus-verified function whose contract states what it
//! returns or changes. The few calls into the `rand` crate stand behind small
//! trusted functions in [`deck`].

pub mod card;
pub mod deck;
pub mod detector;
pub mod engine;
pub mod laws;
pub mod player;
pub mod protocol;
pub mod text;
