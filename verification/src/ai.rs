//! Heuristic players: each decides what to answer to a prompt and which
//! actions to try during its own turn.
pub mod respond;
pub mod tactician;
pub mod planner;
pub mod finisher;
pub mod ranker;
pub mod striker;
