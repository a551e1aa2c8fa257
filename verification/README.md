# holon_bench

Verified building blocks of a Pokémon TCG benchmark, written in Verus.

- `src/cards/`: one module per Dragon Frontiers card: identifiers, attack data
  and the small rules helpers of its attacks (coin-flip conditions, damage).
- `src/model.rs`: the game as a player sees it, as plain values: Pokémon in
  play, attacks, the engine's hints, prompts and actions.
- `src/scoring.rs`, `src/energy.rs`, `src/sort.rs`: the arithmetic the players
  share: hit points left, weakness and resistance, attack values, energy types
  and counts, a stable sort by key and first/last maximum.
- `src/ai/`: heuristic players (`tactician`, `planner`, `finisher`, `ranker`,
  `striker`), each answering prompts and proposing actions for its own turn;
  every answer is specified exactly, random choices by what holds of every
  outcome.
- `src/sim/`: the match simulator's own decisions: player types and
  command-line words, the step loop that drives an engine, seeds, how a series
  is split over threads, tallies and turn statistics, deck lists and theme
  deck files (JSON, parsed by `serde_json` behind a trusted wrapper).
- `src/rng.rs`: the ChaCha8 generator and the draws taken from it (trusted
  wrappers around `rand`).
- `app/`: the simulator program: the rules engine, databases, JSON, threads,
  timing and printing around the library.
