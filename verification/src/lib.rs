//! The five-card trick: two parties learn whether both of them said yes, and
//! nothing more, from a deck of five cards that each of them has rotated.

mod equality;
pub mod laws;
pub mod models;
pub mod util;
