//! Game logic of a vocabulary runner: a player travels along a corridor of
//! gates, each showing a word and two candidate translations, and must pass
//! each gate on the side that shows the right translation.
//!
//! Distances are kept in tenths of a world unit so that all of the
//! bookkeeping is exact integer arithmetic.

mod random;
pub mod corridor;
pub mod distance;
pub mod game;
pub mod game_ui;
pub mod gate;
pub mod vocab;
