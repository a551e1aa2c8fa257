//! A heuristic player that attaches energy to its active Pokémon, attacks
//! with whatever is most likely to knock the defender out, and otherwise
//! plays a basic Pokémon and ends its turn.
use vstd::prelude::*;
use crate::model::{Action, Attack, AttackValue, CardInstanceId, GameView, PokemonView, Prompt, copy_ids, copy_attack};
use crate::scoring::{
    raw_remaining, raw_remaining_hp, my_pokemon, find_my_pokemon, choose_k, choose_id, picks_from,
    view_bounded, energy_bounded, lemma_my_pokemon_bounded, bench_ids, contains_id, opt_ref,
    shuffled_ids,
};
use crate::sort::{pair_gt, first_max_index, first_max};
use crate::rng::{seeded_rng, seeded_generator};
use crate::ai::respond::{end_turn_only, end_turn, min_int, max_int};
use crate::ai::planner::one_of_answer;
use crate::ai::tactician::new_active_candidates;
use rand_chacha::ChaCha8Rng;

verus! {

broadcast use vstd::seq_lib::group_seq_properties;

pub struct CandidateAi {
    rng: ChaCha8Rng,
}

impl CandidateAi {
    /// The player's generator.
    pub closed spec fn generator(&self) -> ChaCha8Rng {
        self.rng
    }

    /// A player whose random choices follow the ChaCha8 stream of `seed`.
    pub fn new(seed: u64) -> (r: CandidateAi)
        ensures
            r.generator() == seeded_generator(seed),
    {
        CandidateAi { rng: seeded_rng(seed) }
    }
}

/// Three per point of HP left, 20 per attached energy, less 30 per special condition.
pub open spec fn pokemon_value(p: PokemonView) -> int {
    raw_remaining(p) * 3 + p.attached_energy@.len() * 20 - p.special_conditions@.len() * 30
}

fn pokemon_score(p: &PokemonView) -> (r: i64)
    requires
        energy_bounded(*p),
    ensures
        r == pokemon_value(*p),
{
    let rem = raw_remaining_hp(p) as i64;
    let energy = p.attached_energy.len() as i64;
    let conditions = p.special_conditions.len() as i64;
    rem * 3 + energy * 20 - conditions * 30
}

/// Ten per point of damage, less three per energy of cost; 1000 more when it
/// knocks the defender out, 200 more when it leaves at most 10 HP.
pub open spec fn attack_value(a: AttackValue, opponent: Option<PokemonView>) -> int {
    a.damage * 10 - a.total_energy * 3 + match opponent {
        Some(o) => if a.damage >= raw_remaining(o) {
            1000int
        } else if a.damage >= raw_remaining(o) - 10 {
            200
        } else {
            0
        },
        None => 0,
    }
}

/// Attacks ranked by value, then by lower cost.
pub open spec fn attack_keys(attacks: Seq<Attack>, opponent: Option<PokemonView>) -> Seq<(i64, i64)> {
    Seq::new(attacks.len(), |i: int| (attack_value(attacks[i]@, opponent) as i64, (-attacks[i]@.total_energy) as i64))
}

/// The first attack of best value (lower cost first among equal values).
pub open spec fn best_attack_choice(attacks: Seq<Attack>, opponent: Option<PokemonView>) -> Option<AttackValue> {
    if attacks.len() == 0 {
        None
    } else {
        Some(attacks[first_max_index(attack_keys(attacks, opponent), attacks.len() as int)]@)
    }
}

/// Ten per point of damage less three per energy of cost: an attack's value
/// before any bonus for what it does to the defender.
pub open spec fn base_value(a: AttackValue) -> int {
    a.damage * 10 - a.total_energy * 3
}

/// The declared attack is one of the offered attacks and is worth at least
/// as much as each of them, where an attack is worth its `base_value` plus
/// 1000 when its damage reaches the defender's HP left and 200 when it falls
/// short by at most 10. So an attack that knocks the defender out is passed
/// up only for one whose base value is at least 800 higher; with no defender
/// the declared attack has the greatest base value.
pub proof fn lemma_declared_attack_is_best(view: GameView, prompt: Prompt, acts: Seq<Action>)
    requires
        prompt_response_ok(view, prompt, acts),
        prompt matches Prompt::ChooseAttack { attacks } && attacks@.len() > 0,
    ensures
        ({
            let attacks = prompt->ChooseAttack_attacks@;
            &&& acts[0] matches Action::DeclareAttack { attack }
            &&& exists|j: int| 0 <= j < attacks.len() && (#[trigger] attacks[j])@ == acts[0]->DeclareAttack_attack@
            &&& forall|j: int| 0 <= j < attacks.len() ==> {
                let c = acts[0]->DeclareAttack_attack@;
                let a = (#[trigger] attacks[j])@;
                &&& (view.opponent_active matches Some(o) ==> {
                    let left = raw_remaining(o);
                    let bonus_a = if a.damage >= left { 1000int } else if a.damage >= left - 10 { 200int } else { 0int };
                    let bonus_c = if c.damage >= left { 1000int } else if c.damage >= left - 10 { 200int } else { 0int };
                    &&& base_value(a) + bonus_a <= base_value(c) + bonus_c
                    &&& (a.damage >= left && c.damage < left ==> base_value(c) >= base_value(a) + 800)
                })
                &&& (view.opponent_active is None ==> base_value(a) <= base_value(c))
            }
        }),
{
    let attacks = prompt->ChooseAttack_attacks@;
    let keys = attack_keys(attacks, view.opponent_active);
    let n = attacks.len() as int;
    crate::sort::lemma_first_max_index(keys, n);
    let b = first_max_index(keys, n);
    assert(acts[0]->DeclareAttack_attack@ == attacks[b]@);
    assert forall|j: int| 0 <= j < attacks.len() implies {
        let c = acts[0]->DeclareAttack_attack@;
        let a = (#[trigger] attacks[j])@;
        &&& (view.opponent_active matches Some(o) ==> {
            let left = raw_remaining(o);
            let bonus_a = if a.damage >= left { 1000int } else if a.damage >= left - 10 { 200int } else { 0int };
            let bonus_c = if c.damage >= left { 1000int } else if c.damage >= left - 10 { 200int } else { 0int };
            &&& base_value(a) + bonus_a <= base_value(c) + bonus_c
            &&& (a.damage >= left && c.damage < left ==> base_value(c) >= base_value(a) + 800)
        })
        &&& (view.opponent_active is None ==> base_value(a) <= base_value(c))
    } by {
        assert(!pair_gt(keys[j], keys[b]));
        assert(keys[j].0 == attack_value(attacks[j]@, view.opponent_active) as i64);
        assert(keys[b].0 == attack_value(attacks[b]@, view.opponent_active) as i64);
    }
    assert(attacks[b]@ == acts[0]->DeclareAttack_attack@);
}

fn best_attack(attacks: &Vec<Attack>, opponent: Option<&PokemonView>) -> (r: Option<Attack>)
    ensures
        r is None <==> attacks@.len() == 0,
        r matches Some(a) ==> Some(a@) == best_attack_choice(attacks@, opt_ref(opponent)),
{
    if attacks.len() == 0 {
        return None;
    }
    let ghost keys = attack_keys(attacks@, opt_ref(opponent));
    let mut scored: Vec<(i64, i64)> = Vec::new();
    let mut i: usize = 0;
    while i < attacks.len()
        invariant
            i <= attacks@.len(),
            keys == attack_keys(attacks@, opt_ref(opponent)),
            scored@ == keys.take(i as int),
        decreases attacks@.len() - i,
    {
        let attack = &attacks[i];
        let mut score: i32 = attack.damage as i32 * 10;
        let cost = attack.cost.total_energy;
        score = score - cost as i32 * 3;
        if let Some(o) = opponent {
            let rem = raw_remaining_hp(o);
            if attack.damage as i32 >= rem {
                score = score + 1000;
            } else if attack.damage as i32 >= rem - 10 {
                score = score + 200;
            }
        }
        scored.push((score as i64, -(cost as i64)));
        i = i + 1;
        assert(scored@ =~= keys.take(i as int));
    }
    assert(keys.take(i as int) =~= keys);
    let best = first_max(&scored);
    Some(copy_attack(&attacks[best]))
}

/// The value used to choose among the player's Pokémon (0 for other ids).
pub open spec fn id_value(view: GameView, id: CardInstanceId) -> int {
    match my_pokemon(view, id) {
        Some(p) => pokemon_value(p),
        None => 0,
    }
}

pub open spec fn id_keys(view: GameView, ids: Seq<CardInstanceId>) -> Seq<(i64, i64)> {
    Seq::new(ids.len(), |i: int| (id_value(view, ids[i]) as i64, 0i64))
}

/// The ids of top value.
pub open spec fn best_value_ids(view: GameView, ids: Seq<CardInstanceId>) -> Seq<CardInstanceId> {
    let top = id_keys(view, ids)[first_max_index(id_keys(view, ids), ids.len() as int)].0;
    ids.filter(|id: CardInstanceId| id_value(view, id) == top)
}

/// A random id among those of top value; `None` when there are no ids.
pub open spec fn best_id_ok(view: GameView, ids: Seq<CardInstanceId>, r: Option<CardInstanceId>) -> bool {
    &&& (r is None <==> ids.len() == 0)
    &&& (r matches Some(x) ==> best_value_ids(view, ids).contains(x))
}

fn choose_best_id(view: &GameView, ids: &Vec<CardInstanceId>, rng: &mut ChaCha8Rng) -> (r: Option<CardInstanceId>)
    requires
        view_bounded(*view),
    ensures
        best_id_ok(*view, ids@, r),
{
    if ids.len() == 0 {
        return None;
    }
    let ghost keys = id_keys(*view, ids@);
    let mut scored: Vec<(i64, i64)> = Vec::new();
    let mut i: usize = 0;
    while i < ids.len()
        invariant
            i <= ids@.len(),
            view_bounded(*view),
            keys == id_keys(*view, ids@),
            scored@ == keys.take(i as int),
            forall|k: int| 0 <= k < i ==> (#[trigger] scored@[k]).0 == id_value(*view, ids@[k]),
        decreases ids@.len() - i,
    {
        proof {
            lemma_my_pokemon_bounded(*view, ids@[i as int]);
        }
        let score: i64 = match find_my_pokemon(view, ids[i]) {
            Some(p) => pokemon_score(p),
            None => 0,
        };
        scored.push((score, 0));
        i = i + 1;
        assert(scored@ =~= keys.take(i as int));
    }
    assert(keys.take(i as int) =~= keys);
    let top = scored[first_max(&scored)].0;
    let ghost f = |id: CardInstanceId| id_value(*view, id) == top;
    let mut best_ids: Vec<CardInstanceId> = Vec::new();
    let mut j: usize = 0;
    while j < ids.len()
        invariant
            j <= ids@.len(),
            scored@ == keys,
            scored@.len() == ids@.len(),
            forall|k: int| 0 <= k < ids@.len() ==> (#[trigger] scored@[k]).0 == id_value(*view, ids@[k]),
            f == (|id: CardInstanceId| id_value(*view, id) == top),
            best_ids@ == ids@.take(j as int).filter(f),
        decreases ids@.len() - j,
    {
        proof {
            assert(ids@.take(j + 1) =~= ids@.take(j as int).push(ids@[j as int]));
            ids@.take(j as int).lemma_filter_push(ids@[j as int], f);
        }
        if scored[j].0 == top {
            best_ids.push(ids[j]);
        }
        j = j + 1;
    }
    proof {
        assert(ids@.take(j as int) =~= ids@);
        let b = first_max_index(keys, ids@.len() as int);
        crate::sort::lemma_first_max_index(keys, ids@.len() as int);
        assert(f(ids@[b]));
        assert(ids@.filter(f).contains(ids@[b]));
    }
    choose_id(&best_ids, rng)
}

// ---------------------------------------------------------------- prompts

/// How many basics to bench: at least one, within the prompt's bounds and the options.
pub open spec fn bench_count(len: int, min: int, max: int) -> int {
    min_int(min_int(max_int(min, 1), max), len)
}

pub open spec fn prompt_response_ok(view: GameView, prompt: Prompt, acts: Seq<Action>) -> bool {
    match prompt {
        Prompt::ChooseStartingActive { options } => one_of_answer(options@, acts),
        Prompt::ChooseBenchBasics { options, min, max } => acts.len() == 1 && (acts[0] matches Action::ChooseBench { card_ids } && picks_from(
            card_ids@,
            options@,
            bench_count(options@.len() as int, min as int, max as int),
        )),
        Prompt::ChooseAttack { attacks } => if attacks@.len() == 0 {
            acts.len() == 0
        } else {
            acts.len() == 1 && (acts[0] matches Action::DeclareAttack { attack } && Some(attack@) == best_attack_choice(
                attacks@,
                view.opponent_active,
            ))
        },
        Prompt::ChooseNewActive { player, options } => if player != view.player_id {
            end_turn_only(acts)
        } else if new_active_candidates(view, options@).len() == 0 {
            acts.len() == 0
        } else {
            acts.len() == 1 && (acts[0] matches Action::ChooseNewActive { card_id } && best_value_ids(
                view,
                new_active_candidates(view, options@),
            ).contains(card_id))
        },
        _ => acts.len() == 0,
    }
}

/// The prompts this player answers without drawing from its generator:
/// every prompt but the starting Pokémon, the bench and its own new active
/// Pokémon.
pub open spec fn answers_without_drawing(view: GameView, prompt: Prompt) -> bool {
    match prompt {
        Prompt::ChooseStartingActive { .. } => false,
        Prompt::ChooseBenchBasics { .. } => false,
        Prompt::ChooseNewActive { player, .. } => player != view.player_id,
        _ => true,
    }
}

impl CandidateAi {
    /// The answers to try, in order, for a prompt.
    pub fn propose_prompt_response(&mut self, view: &GameView, prompt: &Prompt) -> (r: Vec<Action>)
        requires
            view_bounded(*view),
        ensures
            prompt_response_ok(*view, *prompt, r@),
            answers_without_drawing(*view, *prompt) ==> final(self).generator() == old(self).generator(),
    {
        let mut actions: Vec<Action> = Vec::new();
        match prompt {
            Prompt::ChooseStartingActive { options } => {
                if let Some(card_id) = choose_id(options, &mut self.rng) {
                    actions.push(Action::ChooseActive { card_id });
                }
            },
            Prompt::ChooseBenchBasics { options, min, max } => {
                let a = if *min > 1 { *min } else { 1 };
                let b = if a < *max { a } else { *max };
                let count = if b < options.len() { b } else { options.len() };
                let picked = choose_k(options, count, &mut self.rng);
                actions.push(Action::ChooseBench { card_ids: picked });
            },
            Prompt::ChooseAttack { attacks } => {
                if let Some(best) = best_attack(attacks, view.opponent_active.as_ref()) {
                    actions.push(Action::DeclareAttack { attack: best });
                }
            },
            Prompt::ChooseNewActive { player, options } => {
                if *player != view.player_id {
                    return end_turn();
                }
                let candidates: Vec<CardInstanceId> = if options.len() == 0 { bench_ids(&view.my_bench) } else { copy_ids(options) };
                if let Some(card_id) = choose_best_id(view, &candidates, &mut self.rng) {
                    actions.push(Action::ChooseNewActive { card_id });
                }
            },
            _ => {},
        }
        actions
    }
}

// ---------------------------------------------------------------- own turn

/// The energy target: the active Pokémon when it is a target, else a random
/// target of top value.
pub open spec fn energy_target_ok(view: GameView, target: CardInstanceId) -> bool {
    let targets = view.action_hints.attach_targets@;
    if view.my_active matches Some(a) && targets.contains(a.card.id) {
        target == view.my_active.unwrap().card.id
    } else {
        best_value_ids(view, targets).contains(target)
    }
}

/// The actions tried during the player's own turn: the first playable
/// energy onto the chosen target; then, when an attack is usable, the best
/// attack and nothing more; otherwise a random basic and ending the turn.
pub open spec fn own_turn_ok(view: GameView, acts: Seq<Action>) -> bool {
    let h = view.action_hints;
    let na = if h.playable_energy_ids@.len() > 0 && h.attach_targets@.len() > 0 { 1int } else { 0 };
    let nb = if h.playable_basic_ids@.len() > 0 { 1int } else { 0 };
    if view.current_player != view.player_id || view.has_pending_prompt {
        acts.len() == 0
    } else {
        &&& (na == 1 ==> (acts[0] matches Action::AttachEnergy { energy_id, target_id } && energy_id == h.playable_energy_ids@[0]
            && energy_target_ok(view, target_id)))
        &&& if h.usable_attacks@.len() > 0 {
            &&& acts.len() == na + 1
            &&& acts[na] matches Action::DeclareAttack { attack } && Some(attack@) == best_attack_choice(h.usable_attacks@, view.opponent_active)
        } else {
            &&& acts.len() == na + nb + 1
            &&& (nb == 1 ==> (acts[na] matches Action::PlayBasic { card_id } && h.playable_basic_ids@.contains(card_id)))
            &&& acts.last() is EndTurn
        }
    }
}

impl CandidateAi {
    /// The actions to try, in order, during the player's own turn.
    pub fn propose_free_actions(&mut self, view: &GameView) -> (r: Vec<Action>)
        requires
            view_bounded(*view),
        ensures
            own_turn_ok(*view, r@),
            view.current_player != view.player_id || view.has_pending_prompt ==> final(self).generator() == old(self).generator(),
    {
        let mut actions: Vec<Action> = Vec::new();
        if view.current_player != view.player_id {
            return actions;
        }
        if view.has_pending_prompt {
            return actions;
        }
        let hints = &view.action_hints;
        if hints.playable_energy_ids.len() > 0 {
            let energy_id = hints.playable_energy_ids[0];
            let targets = copy_ids(&hints.attach_targets);
            match &view.my_active {
                Some(active) => {
                    if contains_id(&targets, active.card.id) {
                        actions.push(Action::AttachEnergy { energy_id, target_id: active.card.id });
                    } else if let Some(target_id) = choose_best_id(view, &targets, &mut self.rng) {
                        actions.push(Action::AttachEnergy { energy_id, target_id });
                    }
                },
                None => {
                    if let Some(target_id) = choose_best_id(view, &targets, &mut self.rng) {
                        actions.push(Action::AttachEnergy { energy_id, target_id });
                    }
                },
            }
        }
        let ghost after_attach = actions@;
        if let Some(best) = best_attack(&hints.usable_attacks, view.opponent_active.as_ref()) {
            actions.push(Action::DeclareAttack { attack: best });
            return actions;
        }
        if hints.playable_basic_ids.len() > 0 {
            let choices = shuffled_ids(&hints.playable_basic_ids, &mut self.rng);
            proof {
                crate::scoring::lemma_take_subset(choices@, 1);
                broadcast use vstd::multiset::group_multiset_axioms;
                vstd::seq_lib::to_multiset_contains(choices@, choices@[0]);
                assert(choices@.contains(choices@[0]));
                vstd::seq_lib::to_multiset_contains(hints.playable_basic_ids@, choices@[0]);
            }
            actions.push(Action::PlayBasic { card_id: choices[0] });
        }
        actions.push(Action::EndTurn);
        actions
    }
}

} // verus!
