//! Card helpers of the Dragon Frontiers expansion, heuristic players for the
//! card game, and the bookkeeping of a deck-matchup simulator.
pub mod model;
pub mod cards;
pub mod rng;
pub mod sort;
pub mod scoring;
pub mod energy;
pub mod ai;
pub mod sim;
