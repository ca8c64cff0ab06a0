pub mod card;
pub mod deck;
pub mod rules;
pub mod board;
pub mod conservation;
pub mod round_proofs;
pub mod laws;
pub mod behaviour;
pub mod random_bot;
pub mod smart_bot;
pub mod utils;
pub mod driver;
