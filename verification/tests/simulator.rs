//! The simulator's bookkeeping: player types, the step loop, seeds, thread
//! ranges, tallies and deck lists.
use holon_bench::model::{Action, Phase, PlayerId};
use holon_bench::sim::decks::{
    theme_deck_ids,
    energy_def_id, energy_def_id_from_upper, expand_deck_entries, expand_theme_deck, name_pattern, DeckEntry,
    ThemeCard, ThemeDeck, ThemeEnergy,
};
use holon_bench::sim::driver::{with_end_turn, LoopStep, MatchLoop, StepOutcome, ACTION_BUDGET};
use holon_bench::sim::players::{ai_name, is_mode_word, parse_ai_arg, parse_mode, previous_ais, AiType, Mode};
use holon_bench::sim::series::{
    bench_seed_base, blended_plans, match_seeds, matrix_seed, series_thread_count, thread_ranges,
};
use holon_bench::sim::stats::{sort_turns, stat_positions, turn_summary, MatchStats, TurnSummary};
use holon_bench::sim::table::ResultTable;

#[test]
fn ai_names() {
    assert_eq!(ai_name(AiType::RandomAi), "RandomAi");
    assert_eq!(ai_name(AiType::RandomAiV2), "RandomAiV2");
    assert_eq!(ai_name(AiType::RandomAiV3), "RandomAiV3");
    assert_eq!(ai_name(AiType::RandomAiV4), "RandomAiV4");
}

#[test]
fn ai_arguments() {
    assert_eq!(parse_ai_arg("v2"), AiType::RandomAiV2);
    assert_eq!(parse_ai_arg("v3"), AiType::RandomAiV3);
    assert_eq!(parse_ai_arg("v4"), AiType::RandomAiV4);
    assert_eq!(parse_ai_arg("v1"), AiType::RandomAi);
    assert_eq!(parse_ai_arg(""), AiType::RandomAi);
    assert_eq!(parse_ai_arg("v22"), AiType::RandomAi);
}

#[test]
fn mode_arguments() {
    assert_eq!(parse_mode("single"), Mode::Single);
    assert_eq!(parse_mode("diagonal"), Mode::Diagonal);
    assert_eq!(parse_mode("bench"), Mode::Bench);
    assert_eq!(parse_mode("public-bench"), Mode::Bench);
    assert_eq!(parse_mode("v2"), Mode::Matrix);
    assert!(is_mode_word("public-bench"));
    assert!(!is_mode_word("v3"));
}

#[test]
fn previous_players_oldest_first() {
    assert_eq!(previous_ais(AiType::RandomAi), Vec::<AiType>::new());
    assert_eq!(previous_ais(AiType::RandomAiV3), vec![AiType::RandomAi, AiType::RandomAiV2]);
    assert_eq!(previous_ais(AiType::RandomAiV4).len(), 3);
}

#[test]
fn loop_decisions() {
    let m = MatchLoop::new(5000);
    assert_eq!(m.steps_left, 5000);
    assert_eq!(m.actions_budget, ACTION_BUDGET);
    assert!(m.is_running());
    assert_eq!(m.decide(&StepOutcome::Event), LoopStep::Advance);
    assert_eq!(m.decide(&StepOutcome::GameOver { winner: PlayerId::P2 }), LoopStep::Finished { winner: PlayerId::P2 });
    assert_eq!(m.decide(&StepOutcome::Prompt { for_player: PlayerId::P1 }), LoopStep::AnswerPrompt { player: PlayerId::P1 });
    assert_eq!(
        m.decide(&StepOutcome::Continue { phase: Phase::Attack, current: PlayerId::P2 }),
        LoopStep::ActFreely { player: PlayerId::P2 }
    );
    assert_eq!(m.decide(&StepOutcome::Continue { phase: Phase::Draw, current: PlayerId::P2 }), LoopStep::Advance);
}

#[test]
fn loop_counts_steps_and_actions() {
    let mut m = MatchLoop::new(3);
    m.finish_step(false);
    assert_eq!((m.steps_left, m.actions_budget), (2, 5000));
    m.finish_step(true);
    assert_eq!((m.steps_left, m.actions_budget), (1, 4999));
    m.finish_step(true);
    assert_eq!((m.steps_left, m.actions_budget), (0, 4998));
    assert!(!m.is_running());
    let mut spent = MatchLoop { steps_left: 10, actions_budget: 1 };
    spent.finish_step(true);
    assert_eq!(spent.actions_budget, 0);
    assert!(!spent.is_running());
}

#[test]
fn end_turn_is_tried_last() {
    let r = with_end_turn(vec![Action::PlayBasic { card_id: 4 }]);
    assert_eq!(r.len(), 2);
    assert!(matches!(r[0], Action::PlayBasic { card_id: 4 }));
    assert!(matches!(r[1], Action::EndTurn));
}

#[test]
fn seeds_of_a_match() {
    let s = match_seeds(100, 7);
    assert_eq!((s.game, s.first_player, s.second_player), (107, 107, 9108));
    let w = match_seeds(u64::MAX - 1, 0);
    assert_eq!(w.second_player, 8999);
    assert_eq!(bench_seed_base(2, 3), 230000);
    assert_eq!(matrix_seed(1, 2, 3, false), 1203);
    assert_eq!(matrix_seed(1, 2, 3, true), 51203);
}

#[test]
fn blended_series_swaps_seats() {
    let (a, b) = blended_plans(AiType::RandomAiV4, AiType::RandomAi, 10);
    assert_eq!((a.first_ai, a.second_ai, a.seed_base, a.count_player), (AiType::RandomAiV4, AiType::RandomAi, 10, PlayerId::P1));
    assert_eq!((b.first_ai, b.second_ai, b.seed_base, b.count_player), (AiType::RandomAi, AiType::RandomAiV4, 50010, PlayerId::P2));
}

#[test]
fn thread_counts() {
    assert_eq!(series_thread_count(0, 10), 1);
    assert_eq!(series_thread_count(4, 10), 4);
    assert_eq!(series_thread_count(8, 3), 3);
    assert_eq!(series_thread_count(8, 0), 1);
}

#[test]
fn thread_ranges_cover_the_matches() {
    assert_eq!(thread_ranges(10, 4), vec![(0, 3), (3, 6), (6, 9), (9, 10)]);
    assert_eq!(thread_ranges(10, 1), vec![(0, 10)]);
    assert_eq!(thread_ranges(0, 1), Vec::<(usize, usize)>::new());
    assert_eq!(thread_ranges(5, 4), vec![(0, 2), (2, 4), (4, 5)]);
}

#[test]
fn tallies_record_and_merge() {
    let mut a = MatchStats::new();
    a.record(PlayerId::P1, PlayerId::P1, 12);
    a.record(PlayerId::P2, PlayerId::P1, 20);
    assert_eq!((a.p1_wins, a.total, a.turns.clone()), (1, 2, vec![12, 20]));
    assert_eq!(a.p2_wins(), 1);
    let mut b = MatchStats::default();
    b.record(PlayerId::P2, PlayerId::P2, 7);
    a.merge(b);
    assert_eq!((a.p1_wins, a.total, a.turns.clone()), (2, 3, vec![12, 20, 7]));
}

#[test]
fn turn_statistics() {
    assert_eq!(sort_turns(&vec![5, 1, 4, 1, 3]), vec![1, 1, 3, 4, 5]);
    assert_eq!(stat_positions(10), (5, 9, 9));
    assert_eq!(stat_positions(1), (0, 0, 0));
    assert_eq!(stat_positions(20), (10, 18, 19));
    assert_eq!(stat_positions(7), (3, 6, 6));
    assert_eq!(turn_summary(&vec![]), None);
    let t = turn_summary(&vec![30, 10, 20, 50, 40]).unwrap();
    assert_eq!(t, TurnSummary { median: 30, p90: 50, max: 50, games: 5 });
    let u = turn_summary(&vec![9, 8, 7, 6, 5, 4, 3, 2, 1, 0]).unwrap();
    assert_eq!(u, TurnSummary { median: 5, p90: 9, max: 9, games: 10 });
}

#[test]
fn stored_deck_lists_expand() {
    let entries = vec![
        DeckEntry { card_def_id: "DF-28".to_string(), count: 2 },
        DeckEntry { card_def_id: "DF-83".to_string(), count: 0 },
        DeckEntry { card_def_id: "ENERGY-FIRE".to_string(), count: 1 },
    ];
    assert_eq!(expand_deck_entries(&entries), Some(vec!["DF-28".to_string(), "DF-28".to_string(), "ENERGY-FIRE".to_string()]));
    let none = vec![DeckEntry { card_def_id: "DF-28".to_string(), count: 0 }];
    assert_eq!(expand_deck_entries(&none), None);
    assert_eq!(name_pattern("Overzealous"), "%Overzealous%");
}

#[test]
fn energy_ids_are_upper_case() {
    assert_eq!(energy_def_id("fire"), "ENERGY-FIRE");
    assert_eq!(energy_def_id("Lightning"), "ENERGY-LIGHTNING");
    assert_eq!(energy_def_id_from_upper("WATER"), "ENERGY-WATER");
}

#[test]
fn theme_decks_expand() {
    let deck = ThemeDeck {
        cards: vec![
            ThemeCard { def_id: Some("DF-52".to_string()), count: Some(2) },
            ThemeCard { def_id: Some("DF-83".to_string()), count: None },
        ],
        energy: vec![
            ThemeEnergy { energy_type: Some("grass".to_string()), count: Some(2) },
            ThemeEnergy { energy_type: Some("water".to_string()), count: None },
        ],
    };
    assert_eq!(
        expand_theme_deck(&deck),
        Some(vec![
            "DF-52".to_string(),
            "DF-52".to_string(),
            "DF-83".to_string(),
            "ENERGY-GRASS".to_string(),
            "ENERGY-GRASS".to_string(),
        ])
    );
    let unnamed = ThemeDeck { cards: vec![ThemeCard { def_id: None, count: Some(1) }], energy: vec![] };
    assert_eq!(expand_theme_deck(&unnamed), None);
    let untyped = ThemeDeck {
        cards: vec![ThemeCard { def_id: Some("DF-52".to_string()), count: None }],
        energy: vec![ThemeEnergy { energy_type: None, count: Some(3) }],
    };
    assert_eq!(expand_theme_deck(&untyped), None);
    let empty = ThemeDeck { cards: vec![], energy: vec![ThemeEnergy { energy_type: Some("fire".to_string()), count: None }] };
    assert_eq!(expand_theme_deck(&empty), None);
}

#[test]
fn result_table_lookups_and_totals() {
    let mut t = ResultTable::new();
    t.insert(0, 0, 3, 10);
    t.insert(0, 1, 4, 10);
    t.insert(1, 1, 9, 10);
    t.insert(0, 1, 5, 10);
    assert_eq!(t.get(0, 1), Some((5, 10)));
    assert_eq!(t.get(1, 0), None);
    assert_eq!(t.row_totals(0, 2), Some((8, 20)));
    assert_eq!(t.row_totals(0, 1), Some((3, 10)));
    assert_eq!(t.row_totals(1, 2), Some((9, 10)));
    assert_eq!(t.diagonal_totals(2), Some((12, 20)));
    let mut big = ResultTable::new();
    big.insert(0, 0, usize::MAX, usize::MAX);
    big.insert(0, 1, 1, 1);
    assert_eq!(big.row_totals(0, 2), None);
    assert_eq!(big.row_totals(0, 1), Some((usize::MAX, usize::MAX)));
}

#[test]
fn theme_deck_files_expand() {
    let text = r#"{"name": "Green", "cards": [{"def_id": "DF-52", "count": 2}, {"def_id": "DF-83"}, {"def_id": "DF-71", "count": -1}],
                  "energy": [{"type": "grass", "count": 2}, {"type": "fire", "count": "3"}]}"#;
    assert_eq!(
        theme_deck_ids(text),
        Some(vec![
            "DF-52".to_string(),
            "DF-52".to_string(),
            "DF-83".to_string(),
            "DF-71".to_string(),
            "ENERGY-GRASS".to_string(),
            "ENERGY-GRASS".to_string(),
        ])
    );
    assert_eq!(theme_deck_ids("not json"), None);
    assert_eq!(theme_deck_ids(r#"{"cards": [{"def_id": 52}]}"#), None);
    assert_eq!(theme_deck_ids(r#"{"cards": "none", "energy": [{"type": "water", "count": 1}]}"#), Some(vec!["ENERGY-WATER".to_string()]));
    assert_eq!(theme_deck_ids(r#"[1, 2]"#), None);
}

#[test]
fn series_tally_does_not_depend_on_threads() {
    let n = 11usize;
    let outcome = |m: usize| -> Option<(PlayerId, usize)> {
        if m % 4 == 3 { None } else { Some((if m % 3 == 0 { PlayerId::P1 } else { PlayerId::P2 }, 10 + m)) }
    };
    let play = |start: usize, end: usize| {
        let mut t = MatchStats::new();
        for m in start..end {
            if let Some((w, turns)) = outcome(m) {
                t.record(w, PlayerId::P1, turns);
            }
        }
        t
    };
    let whole = play(0, n);
    for threads in 1..=12 {
        let mut merged = MatchStats::new();
        for (start, end) in thread_ranges(n, series_thread_count(threads, n)) {
            merged.merge(play(start, end));
        }
        assert_eq!((merged.p1_wins, merged.total, merged.turns.clone()), (whole.p1_wins, whole.total, whole.turns.clone()));
    }
}
