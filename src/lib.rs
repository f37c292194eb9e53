//! Outcome and payout logic for two slot-machine engines: a three-reel
//! machine with weighted outcome bands, and a ten-by-ten grid that pays for
//! runs of equal symbols along its rows. Random draws are taken as arguments,
//! so every spin is a pure function of balance, bet and draws.

pub mod payout;
pub mod grid;
pub mod reel;
pub mod laws;
