//! The match simulator's own decisions: which player types exist and how the
//! command line names them, the step loop that drives a rules engine, the
//! seeds of each match, how a series is split over threads, the statistics
//! that a series gathers, and how a deck list is expanded into card ids.
pub mod players;
pub mod driver;
pub mod series;
pub mod stats;
pub mod json;
pub mod decks;
pub mod table;
