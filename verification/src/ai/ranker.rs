//! A heuristic player that ranks its options by simple hit-point and energy
//! scores: it starts and replaces its active Pokémon with the sturdiest one,
//! powers up the active Pokémon, attacks for the most value and retreats
//! into a sturdier benched Pokémon.
use vstd::prelude::*;
use crate::model::{Action, Attack, AttackValue, CardInstanceId, GameView, PokemonView, Prompt, copy_ids, copy_attack};
use crate::scoring::{first_with_id, find_in, picks_from, view_bounded, energy_bounded, all_bounded, lemma_first_with_id_in, bench_ids, opt_ref};
use crate::sort::{Keyed, sort_keyed, sort_by_key, take_ids, ids_of, pair_gt, first_max_index, first_max};
use crate::rng::{seeded_rng, seeded_generator, shuffle};
use crate::ai::respond::{end_turn_only, end_turn, min_int, max_int};
use crate::ai::tactician::{new_active_candidates, take_n};
use crate::ai::finisher::bench_count;
use rand_chacha::ChaCha8Rng;

verus! {

broadcast use vstd::seq_lib::group_seq_properties;

pub struct CandidateAi {
    rng: ChaCha8Rng,
}

impl CandidateAi {
    /// The player's generator.
    pub closed spec fn generator(&self) -> ChaCha8Rng {
        self.rng
    }

    /// A player whose random choices follow the ChaCha8 stream of `seed`.
    pub fn new(seed: u64) -> (r: CandidateAi)
        ensures
            r.generator() == seeded_generator(seed),
    {
        CandidateAi { rng: seeded_rng(seed) }
    }
}

/// A benched Pokémon found by id in a bounded view is itself bounded.
pub proof fn lemma_bench_bounded(view: GameView, id: CardInstanceId)
    requires
        view_bounded(view),
    ensures
        first_with_id(view.my_bench@, id) matches Some(p) ==> energy_bounded(p),
{
    lemma_first_with_id_in(view.my_bench@, id);
}

/// HP less 10 per damage counter, plus `per_energy` per attached energy.
pub open spec fn sturdiness(p: PokemonView, per_energy: int) -> int {
    p.hp - 10 * p.damage_counters + p.attached_energy@.len() * per_energy
}

fn sturdiness_of(p: &PokemonView, per_energy: i64) -> (r: i64)
    requires
        energy_bounded(*p),
        0 <= per_energy <= 10,
    ensures
        r == sturdiness(*p, per_energy as int),
{
    let e = p.attached_energy.len() as i64;
    assert(0 <= e * per_energy <= 0x8000_0000 * 10) by (nonlinear_arith)
        requires
            0 <= e < 0x8000_0000,
            0 <= per_energy <= 10,
    ;
    p.hp as i64 - (p.damage_counters as i64) * 10 + e * per_energy
}

/// Starter value: sturdiness (5 per energy) of the benched Pokémon with that
/// id, else of the active one when it has it, else 0.
pub open spec fn starter_value(view: GameView, id: CardInstanceId) -> int {
    match first_with_id(view.my_bench@, id) {
        Some(p) => sturdiness(p, 5),
        None => match view.my_active {
            Some(a) if a.card.id == id => sturdiness(a, 5),
            _ => 0,
        },
    }
}

pub open spec fn value_keys(ids: Seq<CardInstanceId>, f: spec_fn(CardInstanceId) -> int) -> Seq<(i64, i64)> {
    Seq::new(ids.len(), |i: int| (f(ids[i]) as i64, 0i64))
}

/// The first of the best-valued ids.
pub open spec fn first_best(ids: Seq<CardInstanceId>, f: spec_fn(CardInstanceId) -> int) -> Option<CardInstanceId> {
    if ids.len() == 0 { None } else { Some(ids[first_max_index(value_keys(ids, f), ids.len() as int)]) }
}

pub open spec fn starter_fn(view: GameView) -> spec_fn(CardInstanceId) -> int {
    |id: CardInstanceId| starter_value(view, id)
}

fn choose_best_starter(options: &Vec<CardInstanceId>, view: &GameView) -> (r: Option<CardInstanceId>)
    requires
        view_bounded(*view),
    ensures
        r == first_best(options@, starter_fn(*view)),
{
    if options.len() == 0 {
        return None;
    }
    let ghost keys = value_keys(options@, starter_fn(*view));
    let mut scored: Vec<(i64, i64)> = Vec::new();
    let mut i: usize = 0;
    while i < options.len()
        invariant
            i <= options@.len(),
            view_bounded(*view),
            keys == value_keys(options@, starter_fn(*view)),
            scored@ == keys.take(i as int),
        decreases options@.len() - i,
    {
        let id = options[i];
        proof {
            lemma_bench_bounded(*view, id);
        }
        let mut score: i64 = 0;
        match find_in(&view.my_bench, id) {
            Some(p) => {
                score = sturdiness_of(p, 5);
            },
            None => {
                if let Some(a) = &view.my_active {
                    if a.card.id == id {
                        score = sturdiness_of(a, 5);
                    }
                }
            },
        }
        scored.push((score as i64, 0));
        i = i + 1;
        assert(scored@ =~= keys.take(i as int));
    }
    assert(keys.take(i as int) =~= keys);
    Some(options[first_max(&scored)])
}

/// The value of an attack against a target with that HP and damage: its
/// damage, 1000 more when it knocks the target out, else half of what the
/// target would have lost; less its total cost.
pub open spec fn context_value(a: AttackValue, hp: int, damage: int) -> int {
    let left = hp - damage - a.damage;
    a.damage + (if left <= 0 { 1000 } else { (hp - left) / 2 }) - a.total_energy
}

fn attack_score(attack: &Attack, target_hp: u16, target_damage: u16) -> (r: i32)
    ensures
        r == context_value(attack@, target_hp as int, target_damage as int),
{
    let projected = attack.damage as i32;
    let remaining = target_hp as i32 - target_damage as i32 - projected;
    let mut score = projected;
    if remaining <= 0 {
        score = score + 1000;
    } else {
        score = score + (target_hp as i32 - remaining) / 2;
    }
    score - attack.cost.total_energy as i32
}

pub open spec fn attack_value_in(a: AttackValue, view: GameView) -> int {
    match view.opponent_active {
        Some(o) => context_value(a, o.hp as int, o.damage_counters as int),
        None => a.damage as int,
    }
}

pub open spec fn attack_keys(attacks: Seq<Attack>, view: GameView) -> Seq<(i64, i64)> {
    Seq::new(attacks.len(), |i: int| (attack_value_in(attacks[i]@, view) as i64, 0i64))
}

/// The first attack of best value against the opponent's active Pokémon.
pub open spec fn best_attack_choice(attacks: Seq<Attack>, view: GameView) -> Option<AttackValue> {
    if attacks.len() == 0 { None } else { Some(attacks[first_max_index(attack_keys(attacks, view), attacks.len() as int)]@) }
}

fn best_attack_with_context(attacks: &Vec<Attack>, view: &GameView) -> (r: Option<Attack>)
    ensures
        r is None <==> attacks@.len() == 0,
        r matches Some(a) ==> Some(a@) == best_attack_choice(attacks@, *view),
{
    if attacks.len() == 0 {
        return None;
    }
    let ghost keys = attack_keys(attacks@, *view);
    let mut scored: Vec<(i64, i64)> = Vec::new();
    let mut i: usize = 0;
    while i < attacks.len()
        invariant
            i <= attacks@.len(),
            keys == attack_keys(attacks@, *view),
            scored@ == keys.take(i as int),
        decreases attacks@.len() - i,
    {
        let attack = &attacks[i];
        let score: i32 = match &view.opponent_active {
            Some(opp) => attack_score(attack, opp.hp, opp.damage_counters),
            None => attack.damage as i32,
        };
        scored.push((score as i64, 0));
        i = i + 1;
        assert(scored@ =~= keys.take(i as int));
    }
    assert(keys.take(i as int) =~= keys);
    Some(copy_attack(&attacks[first_max(&scored)]))
}

/// Bench candidates ranked by HP left of the benched Pokémon with that id (0 otherwise).
pub open spec fn bench_keys(view: GameView, options: Seq<CardInstanceId>) -> Seq<Keyed> {
    Seq::new(options.len(), |i: int| {
        let score = match first_with_id(view.my_bench@, options[i]) {
            Some(p) => p.hp - 10 * p.damage_counters,
            None => 0,
        };
        ((-score) as i64, 0i64, options[i])
    })
}

/// The sturdiest `count` options after a random shuffle (ties fall in the
/// shuffled order).
pub open spec fn bench_pick_ok(view: GameView, options: Seq<CardInstanceId>, count: int, r: Seq<CardInstanceId>) -> bool {
    exists|p: Seq<Keyed>| #![trigger sort_keyed(p)]
        p.to_multiset() == bench_keys(view, options).to_multiset() && p.len() == options.len()
        && r == ids_of(sort_keyed(p)).take(take_n(options.len() as int, count))
}

fn pick_bench_basics(options: &Vec<CardInstanceId>, min: usize, max: usize, view: &GameView, rng: &mut ChaCha8Rng) -> (r: Vec<CardInstanceId>)
    ensures
        bench_pick_ok(*view, options@, bench_count(options@.len() as int, min as int, max as int), r@),
{
    let a = if min > 1 { min } else { 1 };
    let b = if a < max { a } else { max };
    let count = if b < options.len() { b } else { options.len() };
    let mut scored: Vec<Keyed> = Vec::new();
    let mut i: usize = 0;
    while i < options.len()
        invariant
            i <= options@.len(),
            scored@ == bench_keys(*view, options@).take(i as int),
        decreases options@.len() - i,
    {
        let id = options[i];
        let score: i32 = match find_in(&view.my_bench, id) {
            Some(p) => p.hp as i32 - (p.damage_counters as i32) * 10,
            None => 0,
        };
        scored.push((-(score as i64), 0, id));
        i = i + 1;
        assert(scored@ =~= bench_keys(*view, options@).take(i as int));
    }
    assert(bench_keys(*view, options@).take(i as int) =~= bench_keys(*view, options@));
    shuffle(&mut scored, rng);
    let sorted = sort_by_key(&scored);
    proof {
        crate::sort::lemma_sort_keyed_multiset(scored@);
    }
    take_ids(&sorted, count)
}

/// Energy target value: 50 for the active Pokémon less 5 per damage counter
/// plus 3 per energy; for a benched one half its HP less 5 per damage
/// counter plus 3 per energy.
pub open spec fn energy_target_value(view: GameView, id: CardInstanceId) -> int {
    (match view.my_active {
        Some(a) if a.card.id == id => 50 - 5 * a.damage_counters + 3 * a.attached_energy@.len(),
        _ => 0,
    }) + (match first_with_id(view.my_bench@, id) {
        Some(b) => b.hp / 2 - 5 * b.damage_counters + 3 * b.attached_energy@.len(),
        None => 0,
    })
}

pub open spec fn energy_target_fn(view: GameView) -> spec_fn(CardInstanceId) -> int {
    |id: CardInstanceId| energy_target_value(view, id)
}

fn pick_energy_target(view: &GameView, targets: &Vec<CardInstanceId>) -> (r: Option<CardInstanceId>)
    requires
        view_bounded(*view),
    ensures
        r == first_best(targets@, energy_target_fn(*view)),
{
    if targets.len() == 0 {
        return None;
    }
    let ghost keys = value_keys(targets@, energy_target_fn(*view));
    let mut scored: Vec<(i64, i64)> = Vec::new();
    let mut i: usize = 0;
    while i < targets.len()
        invariant
            i <= targets@.len(),
            view_bounded(*view),
            keys == value_keys(targets@, energy_target_fn(*view)),
            scored@ == keys.take(i as int),
        decreases targets@.len() - i,
    {
        let id = targets[i];
        proof {
            lemma_bench_bounded(*view, id);
        }
        let mut score: i64 = 0;
        if let Some(a) = &view.my_active {
            if a.card.id == id {
                score = score + 50 - (a.damage_counters as i64) * 5 + (a.attached_energy.len() as i64) * 3;
            }
        }
        if let Some(b) = find_in(&view.my_bench, id) {
            score = score + b.hp as i64 / 2 - (b.damage_counters as i64) * 5 + (b.attached_energy.len() as i64) * 3;
        }
        scored.push((score as i64, 0));
        i = i + 1;
        assert(scored@ =~= keys.take(i as int));
    }
    assert(keys.take(i as int) =~= keys);
    Some(targets[first_max(&scored)])
}

/// New active value: sturdiness (6 per energy) of the benched Pokémon with that id, else 0.
pub open spec fn new_active_fn(view: GameView) -> spec_fn(CardInstanceId) -> int {
    |id: CardInstanceId| match first_with_id(view.my_bench@, id) {
        Some(p) => sturdiness(p, 6),
        None => 0,
    }
}

fn pick_new_active(view: &GameView, options: &Vec<CardInstanceId>) -> (r: Option<CardInstanceId>)
    requires
        view_bounded(*view),
    ensures
        r == first_best(new_active_candidates(*view, options@), new_active_fn(*view)),
{
    let candidates: Vec<CardInstanceId> = if options.len() == 0 { bench_ids(&view.my_bench) } else { copy_ids(options) };
    if candidates.len() == 0 {
        return None;
    }
    let ghost keys = value_keys(candidates@, new_active_fn(*view));
    let mut scored: Vec<(i64, i64)> = Vec::new();
    let mut i: usize = 0;
    while i < candidates.len()
        invariant
            i <= candidates@.len(),
            view_bounded(*view),
            keys == value_keys(candidates@, new_active_fn(*view)),
            scored@ == keys.take(i as int),
        decreases candidates@.len() - i,
    {
        let id = candidates[i];
        proof {
            lemma_bench_bounded(*view, id);
        }
        let score: i64 = match find_in(&view.my_bench, id) {
            Some(p) => sturdiness_of(p, 6),
            None => 0,
        };
        scored.push((score as i64, 0));
        i = i + 1;
        assert(scored@ =~= keys.take(i as int));
    }
    assert(keys.take(i as int) =~= keys);
    Some(candidates[first_max(&scored)])
}

// ---------------------------------------------------------------- prompts

/// After the preferred attack, every attack in the prompt's order.
pub open spec fn all_attacks_after(acts: Seq<Action>, attacks: Seq<Attack>) -> bool {
    forall|k: int| 0 <= k < attacks.len() ==> (#[trigger] acts.skip(1)[k] matches Action::DeclareAttack { attack } && attack@ == attacks[k]@)
}

pub open spec fn prompt_response_ok(view: GameView, prompt: Prompt, acts: Seq<Action>) -> bool {
    match prompt {
        Prompt::ChooseStartingActive { options } => match first_best(options@, starter_fn(view)) {
            Some(id) => acts == seq![Action::ChooseActive { card_id: id }],
            None => acts.len() == 0,
        },
        Prompt::ChooseBenchBasics { options, min, max } => acts.len() == 1 && (acts[0] matches Action::ChooseBench { card_ids } && bench_pick_ok(
            view,
            options@,
            bench_count(options@.len() as int, min as int, max as int),
            card_ids@,
        )),
        Prompt::ChooseAttack { attacks } => if attacks@.len() == 0 {
            acts.len() == 0
        } else {
            &&& acts.len() == attacks@.len() + 1
            &&& acts[0] matches Action::DeclareAttack { attack } && Some(attack@) == best_attack_choice(attacks@, view)
            &&& all_attacks_after(acts, attacks@)
        },
        Prompt::ChooseNewActive { player, options } => if player != view.player_id {
            end_turn_only(acts)
        } else {
            match first_best(new_active_candidates(view, options@), new_active_fn(view)) {
                Some(id) => acts == seq![Action::ChooseNewActive { card_id: id }],
                None => acts.len() == 0,
            }
        },
        _ => acts.len() == 0,
    }
}

/// The prompts this player answers without drawing from its generator:
/// every prompt but the bench.
pub open spec fn answers_without_drawing(view: GameView, prompt: Prompt) -> bool {
    !(prompt is ChooseBenchBasics)
}

impl CandidateAi {
    /// The answers to try, in order, for a prompt.
    pub fn propose_prompt_response(&mut self, view: &GameView, prompt: &Prompt) -> (r: Vec<Action>)
        requires
            view_bounded(*view),
        ensures
            prompt_response_ok(*view, *prompt, r@),
            answers_without_drawing(*view, *prompt) ==> final(self).generator() == old(self).generator(),
    {
        let mut actions: Vec<Action> = Vec::new();
        match prompt {
            Prompt::ChooseStartingActive { options } => {
                if let Some(card_id) = choose_best_starter(options, view) {
                    actions.push(Action::ChooseActive { card_id });
                    assert(actions@ =~= seq![Action::ChooseActive { card_id }]);
                }
            },
            Prompt::ChooseBenchBasics { options, min, max } => {
                let picked = pick_bench_basics(options, *min, *max, view, &mut self.rng);
                actions.push(Action::ChooseBench { card_ids: picked });
            },
            Prompt::ChooseAttack { attacks } => {
                if let Some(best) = best_attack_with_context(attacks, view) {
                    actions.push(Action::DeclareAttack { attack: best });
                }
                let mut k: usize = 0;
                while k < attacks.len()
                    invariant
                        k <= attacks@.len(),
                        attacks@.len() > 0 ==> actions@.len() == k + 1,
                        attacks@.len() == 0 ==> actions@.len() == 0,
                        attacks@.len() > 0 ==> (actions@[0] matches Action::DeclareAttack { attack } && Some(attack@) == best_attack_choice(attacks@, *view)),
                        forall|j: int| 0 <= j < k ==> (#[trigger] actions@.skip(1)[j] matches Action::DeclareAttack { attack } && attack@ == attacks@[j]@),
                    decreases attacks@.len() - k,
                {
                    let ghost before = actions@;
                    actions.push(Action::DeclareAttack { attack: copy_attack(&attacks[k]) });
                    proof {
                        assert forall|j: int| 0 <= j < k + 1 implies (#[trigger] actions@.skip(1)[j] matches Action::DeclareAttack { attack } && attack@ == attacks@[j]@) by {
                            assert(actions@.skip(1)[j] == actions@[j + 1]);
                            if j < k {
                                assert(before.skip(1)[j] == before[j + 1]);
                            }
                        }
                    }
                    k = k + 1;
                }
            },
            Prompt::ChooseNewActive { player, options } => {
                if *player != view.player_id {
                    return end_turn();
                }
                if let Some(card_id) = pick_new_active(view, options) {
                    actions.push(Action::ChooseNewActive { card_id });
                    assert(actions@ =~= seq![Action::ChooseNewActive { card_id }]);
                }
            },
            _ => {},
        }
        actions
    }
}

// ---------------------------------------------------------------- own turn

pub open spec fn retreat_fn(view: GameView) -> Seq<(i64, i64)> {
    Seq::new(view.my_bench@.len(), |i: int| (sturdiness(view.my_bench@[i], 5) as i64, 0i64))
}

/// The benched Pokémon to retreat into: the first sturdiest one, when it is
/// sturdier than the active Pokémon's HP left and retreating is allowed.
pub open spec fn retreat_target(view: GameView) -> Option<CardInstanceId> {
    let n = view.my_bench@.len() as int;
    if !view.action_hints.can_retreat || view.my_active is None || n == 0 {
        None
    } else {
        let b = first_max_index(retreat_fn(view), n);
        let a = view.my_active.unwrap();
        if sturdiness(view.my_bench@[b], 5) > a.hp - 10 * a.damage_counters {
            Some(view.my_bench@[b].card.id)
        } else {
            None
        }
    }
}

/// The actions tried during the player's own turn, in order: the first
/// playable energy onto the best target, the best attack, the first playable
/// basic, a retreat into a sturdier benched Pokémon, and ending the turn.
pub open spec fn own_turn_ok(view: GameView, acts: Seq<Action>) -> bool {
    let h = view.action_hints;
    let na = if h.playable_energy_ids@.len() > 0 && h.attach_targets@.len() > 0 { 1int } else { 0 };
    let nd = if h.usable_attacks@.len() > 0 { 1int } else { 0 };
    let nb = if h.playable_basic_ids@.len() > 0 { 1int } else { 0 };
    let nr = if retreat_target(view) is Some { 1int } else { 0 };
    if view.current_player != view.player_id || view.has_pending_prompt {
        acts.len() == 0
    } else {
        &&& acts.len() == na + nd + nb + nr + 1
        &&& (na == 1 ==> acts[0] == (Action::AttachEnergy { energy_id: h.playable_energy_ids@[0], target_id: first_best(h.attach_targets@, energy_target_fn(view)).unwrap() }))
        &&& (nd == 1 ==> (acts[na] matches Action::DeclareAttack { attack } && Some(attack@) == best_attack_choice(h.usable_attacks@, view)))
        &&& (nb == 1 ==> acts[na + nd] == (Action::PlayBasic { card_id: h.playable_basic_ids@[0] }))
        &&& (nr == 1 ==> acts[na + nd + nb] == (Action::Retreat { to_bench_id: retreat_target(view).unwrap() }))
        &&& acts.last() is EndTurn
    }
}

fn choose_retreat(view: &GameView) -> (r: Option<CardInstanceId>)
    requires
        view_bounded(*view),
    ensures
        r == retreat_target(*view),
{
    if !view.action_hints.can_retreat {
        return None;
    }
    match &view.my_active {
        Some(active) => {
            if view.my_bench.len() == 0 {
                return None;
            }
            let active_hp = active.hp as i32 - (active.damage_counters as i32) * 10;
            let ghost keys = retreat_fn(*view);
            let mut scored: Vec<(i64, i64)> = Vec::new();
            let mut i: usize = 0;
            while i < view.my_bench.len()
                invariant
                    i <= view.my_bench@.len(),
                    view_bounded(*view),
                    keys == retreat_fn(*view),
                    scored@ == keys.take(i as int),
                decreases view.my_bench@.len() - i,
            {
                proof {
                    assert(energy_bounded(view.my_bench@[i as int]));
                }
                let score = sturdiness_of(&view.my_bench[i], 5);
                scored.push((score as i64, 0));
                i = i + 1;
                assert(scored@ =~= keys.take(i as int));
            }
            assert(keys.take(i as int) =~= keys);
            let b = first_max(&scored);
            if scored[b].0 > active_hp as i64 {
                Some(view.my_bench[b].card.id)
            } else {
                None
            }
        },
        None => None,
    }
}

impl CandidateAi {
    /// The actions to try, in order, during the player's own turn.
    pub fn propose_free_actions(&mut self, view: &GameView) -> (r: Vec<Action>)
        requires
            view_bounded(*view),
        ensures
            own_turn_ok(*view, r@),
            final(self).generator() == old(self).generator(),
    {
        let mut actions: Vec<Action> = Vec::new();
        if view.current_player != view.player_id {
            return actions;
        }
        if view.has_pending_prompt {
            return actions;
        }
        let hints = &view.action_hints;
        if hints.playable_energy_ids.len() > 0 {
            let energy_id = hints.playable_energy_ids[0];
            if let Some(target_id) = pick_energy_target(view, &hints.attach_targets) {
                actions.push(Action::AttachEnergy { energy_id, target_id });
            }
        }
        if let Some(best) = best_attack_with_context(&hints.usable_attacks, view) {
            actions.push(Action::DeclareAttack { attack: best });
        }
        if hints.playable_basic_ids.len() > 0 {
            actions.push(Action::PlayBasic { card_id: hints.playable_basic_ids[0] });
        }
        if let Some(card_id) = choose_retreat(view) {
            actions.push(Action::Retreat { to_bench_id: card_id });
        }
        actions.push(Action::EndTurn);
        actions
    }
}

} // verus!
