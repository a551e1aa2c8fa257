//! The heuristic players on small, concrete positions.
use holon_bench::ai::{finisher, planner, ranker, striker, tactician};
use holon_bench::model::{
    Action, ActionHints, Attack, AttackCost, CardInstance, GameView, PlayerId, PokemonView, Prompt, Type,
};

fn card(id: u64, def_id: &str) -> CardInstance {
    CardInstance { id, def_id: def_id.to_string(), energy_id: None }
}

fn mon(id: u64, hp: u16, damage_counters: u16) -> PokemonView {
    PokemonView {
        card: card(id, "DF-52"),
        hp,
        damage_counters,
        attached_energy: Vec::new(),
        attached_tool: None,
        special_conditions: Vec::new(),
        types: vec![Type::Fighting],
        weakness: None,
        resistance: None,
        is_ex: false,
    }
}

fn attack(name: &str, damage: u16, total_energy: u16) -> Attack {
    Attack {
        name: name.to_string(),
        damage,
        attack_type: Type::Colorless,
        cost: AttackCost { total_energy, types: Vec::new() },
        effect_ast: None,
    }
}

fn hints() -> ActionHints {
    ActionHints {
        playable_basic_ids: Vec::new(),
        playable_energy_ids: Vec::new(),
        playable_evolution_ids: Vec::new(),
        playable_trainer_ids: Vec::new(),
        attach_targets: Vec::new(),
        evolve_targets_by_card_id: Vec::new(),
        usable_attacks: Vec::new(),
        can_declare_attack: false,
        can_end_turn: true,
        can_retreat: false,
    }
}

fn view(active: Option<PokemonView>, bench: Vec<PokemonView>, h: ActionHints) -> GameView {
    GameView {
        player_id: PlayerId::P1,
        current_player: PlayerId::P1,
        has_pending_prompt: false,
        my_active: active,
        my_bench: bench,
        opponent_active: None,
        opponent_bench: Vec::new(),
        my_hand: Vec::new(),
        my_discard: Vec::new(),
        action_hints: h,
    }
}

fn chosen_active(acts: &[Action]) -> Option<u64> {
    match acts {
        [Action::ChooseActive { card_id }] => Some(*card_id),
        _ => None,
    }
}

#[test]
fn tactician_starts_with_a_playable_basic() {
    let mut h = hints();
    h.playable_basic_ids = vec![6];
    let v = view(None, Vec::new(), h);
    let mut ai = tactician::CandidateAi::new(1);
    let acts = ai.propose_prompt_response(&v, &Prompt::ChooseStartingActive { options: vec![5, 6] });
    assert_eq!(chosen_active(&acts), Some(6));
}

#[test]
fn tactician_starts_with_the_first_option_otherwise() {
    let v = view(None, Vec::new(), hints());
    let mut ai = tactician::CandidateAi::new(1);
    let acts = ai.propose_prompt_response(&v, &Prompt::ChooseStartingActive { options: vec![5, 6] });
    assert_eq!(chosen_active(&acts), Some(5));
}

#[test]
fn tactician_ends_a_quiet_turn() {
    let v = view(Some(mon(1, 60, 0)), Vec::new(), hints());
    let mut ai = tactician::CandidateAi::new(2);
    let acts = ai.propose_free_actions(&v);
    assert_eq!(acts.len(), 1);
    assert!(matches!(acts[0], Action::EndTurn));
}

#[test]
fn tactician_declares_the_only_usable_attack() {
    let mut h = hints();
    h.usable_attacks = vec![attack("Bite", 20, 1)];
    h.can_declare_attack = true;
    let v = view(Some(mon(1, 60, 0)), Vec::new(), h);
    let mut ai = tactician::CandidateAi::new(3);
    let acts = ai.propose_free_actions(&v);
    assert_eq!(acts.len(), 2);
    assert!(matches!(&acts[0], Action::DeclareAttack { attack } if attack.name == "Bite"));
    assert!(matches!(acts[1], Action::EndTurn));
}

#[test]
fn players_wait_when_it_is_not_their_turn() {
    let mut v = view(Some(mon(1, 60, 0)), Vec::new(), hints());
    v.current_player = PlayerId::P2;
    assert!(tactician::CandidateAi::new(1).propose_free_actions(&v).is_empty());
    assert!(planner::CandidateAi::new(1).propose_free_actions(&v).is_empty());
    assert!(finisher::CandidateAi::new(1).propose_free_actions(&v).is_empty());
    assert!(ranker::CandidateAi::new(1).propose_free_actions(&v).is_empty());
}

#[test]
fn players_wait_while_a_prompt_is_pending() {
    let mut v = view(Some(mon(1, 60, 0)), Vec::new(), hints());
    v.has_pending_prompt = true;
    assert!(tactician::CandidateAi::new(1).propose_free_actions(&v).is_empty());
    assert!(planner::CandidateAi::new(1).propose_free_actions(&v).is_empty());
    assert!(finisher::CandidateAi::new(1).propose_free_actions(&v).is_empty());
    assert!(ranker::CandidateAi::new(1).propose_free_actions(&v).is_empty());
}

#[test]
fn single_option_starts_are_forced() {
    let v = view(None, Vec::new(), hints());
    let p = Prompt::ChooseStartingActive { options: vec![9] };
    assert_eq!(chosen_active(&planner::CandidateAi::new(4).propose_prompt_response(&v, &p)), Some(9));
    assert_eq!(chosen_active(&finisher::CandidateAi::new(4).propose_prompt_response(&v, &p)), Some(9));
    assert_eq!(chosen_active(&ranker::CandidateAi::new(4).propose_prompt_response(&v, &p)), Some(9));
}

#[test]
fn ranker_starts_with_the_sturdiest_benched_pokemon() {
    let v = view(None, vec![mon(1, 60, 0), mon(2, 90, 0), mon(3, 100, 2)], hints());
    let p = Prompt::ChooseStartingActive { options: vec![1, 2, 3] };
    assert_eq!(chosen_active(&ranker::CandidateAi::new(5).propose_prompt_response(&v, &p)), Some(2));
}

#[test]
fn ranker_declares_the_best_value_attack_first() {
    let mut v = view(Some(mon(1, 60, 0)), Vec::new(), hints());
    v.opponent_active = Some(mon(20, 50, 2));
    let attacks = vec![attack("Tackle", 10, 1), attack("Slam", 30, 3)];
    let acts = ranker::CandidateAi::new(6).propose_prompt_response(&v, &Prompt::ChooseAttack { attacks });
    assert_eq!(acts.len(), 3);
    assert!(matches!(&acts[0], Action::DeclareAttack { attack } if attack.name == "Slam"));
    assert!(matches!(&acts[1], Action::DeclareAttack { attack } if attack.name == "Tackle"));
    assert!(matches!(&acts[2], Action::DeclareAttack { attack } if attack.name == "Slam"));
}

#[test]
fn ranker_ends_the_turn_on_the_opponents_new_active_prompt() {
    let v = view(Some(mon(1, 60, 0)), Vec::new(), hints());
    let p = Prompt::ChooseNewActive { player: PlayerId::P2, options: vec![7] };
    let acts = ranker::CandidateAi::new(7).propose_prompt_response(&v, &p);
    assert_eq!(acts.len(), 1);
    assert!(matches!(acts[0], Action::EndTurn));
}

#[test]
fn ranker_powers_up_then_attacks_then_ends() {
    let mut h = hints();
    h.playable_energy_ids = vec![40];
    h.attach_targets = vec![2, 1];
    h.usable_attacks = vec![attack("Bite", 20, 1)];
    let v = view(Some(mon(1, 60, 0)), vec![mon(2, 80, 0)], h);
    let acts = ranker::CandidateAi::new(8).propose_free_actions(&v);
    assert_eq!(acts.len(), 3);
    assert!(matches!(acts[0], Action::AttachEnergy { energy_id: 40, target_id: 1 }));
    assert!(matches!(&acts[1], Action::DeclareAttack { attack } if attack.name == "Bite"));
    assert!(matches!(acts[2], Action::EndTurn));
}

#[test]
fn ranker_retreats_into_a_sturdier_benched_pokemon() {
    let mut h = hints();
    h.can_retreat = true;
    let v = view(Some(mon(1, 60, 4)), vec![mon(2, 50, 0), mon(3, 70, 1)], h);
    let acts = ranker::CandidateAi::new(9).propose_free_actions(&v);
    assert_eq!(acts.len(), 2);
    assert!(matches!(acts[0], Action::Retreat { to_bench_id: 3 }));
    assert!(matches!(acts[1], Action::EndTurn));
}

#[test]
fn finisher_attacks_and_stops() {
    let mut h = hints();
    h.usable_attacks = vec![attack("Bite", 20, 1)];
    h.playable_basic_ids = vec![11];
    let v = view(Some(mon(1, 60, 0)), Vec::new(), h);
    let acts = finisher::CandidateAi::new(10).propose_free_actions(&v);
    assert_eq!(acts.len(), 1);
    assert!(matches!(&acts[0], Action::DeclareAttack { attack } if attack.name == "Bite"));
}

#[test]
fn planner_ends_the_turn_when_allowed() {
    let v = view(Some(mon(1, 60, 0)), Vec::new(), hints());
    let acts = planner::CandidateAi::new(11).propose_free_actions(&v);
    assert_eq!(acts.len(), 1);
    assert!(matches!(acts[0], Action::EndTurn));
}

#[test]
fn striker_declares_the_hardest_hit_cheapest_first() {
    let attacks = vec![attack("Bite", 30, 2), attack("Slam", 30, 1), attack("Tackle", 10, 0), attack("Crush", 30, 1)];
    let best = striker::best_attack(&attacks).unwrap();
    assert_eq!(best.name, "Crush");
    assert!(striker::best_attack(&Vec::new()).is_none());
    let v = view(Some(mon(1, 60, 0)), Vec::new(), hints());
    let acts = striker::CandidateAi::new(12).propose_prompt_response(&v, &Prompt::ChooseAttack { attacks });
    assert_eq!(acts.len(), 5);
    assert!(matches!(&acts[0], Action::DeclareAttack { attack } if attack.name == "Crush"));
}

#[test]
fn striker_starts_and_benches_playable_basics() {
    let mut h = hints();
    h.playable_basic_ids = vec![3, 4, 5];
    let v = view(None, Vec::new(), h);
    let mut ai = striker::CandidateAi::new(13);
    let acts = ai.propose_prompt_response(&v, &Prompt::ChooseStartingActive { options: vec![1, 4, 3] });
    assert_eq!(chosen_active(&acts), Some(4));
    let acts = ai.propose_prompt_response(&v, &Prompt::ChooseBenchBasics { options: vec![1, 3, 5, 7], min: 1, max: 5 });
    assert_eq!(acts.len(), 1);
    match &acts[0] {
        Action::ChooseBench { card_ids } => {
            assert_eq!(card_ids.len(), 2);
            assert!(card_ids.iter().all(|id| *id == 3 || *id == 5));
        }
        _ => panic!("expected a bench choice"),
    }
    let none = striker::CandidateAi::new(13).propose_prompt_response(&v, &Prompt::ChooseStartingActive { options: vec![1] });
    assert!(none.is_empty());
}

#[test]
fn striker_new_active_first_candidate_then_all() {
    let v = view(None, vec![mon(7, 50, 0), mon(8, 50, 0)], hints());
    let acts = striker::CandidateAi::new(14)
        .propose_prompt_response(&v, &Prompt::ChooseNewActive { player: PlayerId::P1, options: Vec::new() });
    assert_eq!(acts.len(), 3);
    assert!(matches!(acts[0], Action::ChooseNewActive { card_id: 7 }));
}

#[test]
fn striker_turn_order() {
    let mut h = hints();
    h.playable_energy_ids = vec![40];
    h.attach_targets = vec![1];
    h.can_declare_attack = true;
    h.playable_basic_ids = vec![9];
    let v = view(Some(mon(1, 60, 0)), Vec::new(), h);
    let acts = striker::CandidateAi::new(15).propose_free_actions(&v);
    assert_eq!(acts.len(), 4);
    assert!(matches!(acts[0], Action::AttachEnergy { energy_id: 40, target_id: 1 }));
    assert!(matches!(&acts[1], Action::DeclareAttack { attack } if attack.name.is_empty() && attack.damage == 0));
    assert!(matches!(acts[2], Action::PlayBasic { card_id: 9 }));
    assert!(matches!(acts[3], Action::EndTurn));
}

#[test]
fn same_seed_same_choices() {
    let v = view(None, Vec::new(), hints());
    let p = Prompt::ChooseStartingActive { options: (1..=40).collect() };
    for seed in [0u64, 7, 99] {
        let a = chosen_active(&planner::CandidateAi::new(seed).propose_prompt_response(&v, &p));
        let b = chosen_active(&planner::CandidateAi::new(seed).propose_prompt_response(&v, &p));
        assert_eq!(a, b);
        assert!(a.is_some());
    }
}

#[test]
fn answers_without_drawing_leave_the_generator() {
    let mut h = hints();
    h.playable_basic_ids = vec![6];
    let v = view(None, Vec::new(), h);
    let start = Prompt::ChooseStartingActive { options: vec![5, 6] };
    let choose = Prompt::ChooseCardsFromDiscard { player: PlayerId::P1, count: 1, options: (1..=30).collect(), min: None, max: None };
    let other = Prompt::ChooseNewActive { player: PlayerId::P2, options: vec![1] };
    let mut a = tactician::CandidateAi::new(21);
    let mut b = tactician::CandidateAi::new(21);
    a.propose_prompt_response(&v, &start);
    a.propose_prompt_response(&v, &other);
    let ra = a.propose_prompt_response(&v, &choose);
    let rb = b.propose_prompt_response(&v, &choose);
    match (&ra[0], &rb[0]) {
        (Action::TakeCardsFromDiscard { card_ids: x }, Action::TakeCardsFromDiscard { card_ids: y }) => assert_eq!(x, y),
        _ => panic!("expected discard picks"),
    }
}
