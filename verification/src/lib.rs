//! A verified wager-escrow and settlement engine for a coin-flip game.
//!
//! A player deposits a stake to open a bet, the bet is held in a pending
//! state under a request id, and a later settlement derives one outcome per
//! requested flip from an opaque randomness seed, paying winnings out of the
//! funds the engine holds in custody.  The host ledger that actually moves
//! value and the randomness source that supplies the seed are external
//! collaborators: the engine consumes a seed and hands back transfer
//! instructions, and every state transition is specified and proved here.

pub mod counter;
pub mod engine;
pub mod errors;
pub mod laws;
pub mod number_helper;
pub mod outcome;
pub mod store;
pub mod wager;
