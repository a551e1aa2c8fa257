//! A heuristic player that evolves everything it can, fills its bench,
//! plays all its trainers, attaches energy where its attacks need it and
//! attacks with the attack of best value.
use vstd::prelude::*;
use crate::model::{Action, Attack, AttackValue, CardInstanceId, GameView, PlayerId, PokemonView, Prompt, copy_ids};
use crate::scoring::{
    remaining, remaining_hp, my_pokemon, opponent_pokemon, is_active_id, find_my_pokemon,
    find_opponent_pokemon, is_my_active, matchup, matchup_score_against_active, choose_k, choose_id,
    picks_from, view_bounded, energy_bounded, lemma_my_pokemon_bounded, best_attack_for_view,
    best_attack_index, bench_ids, ids_of_pokemon, shuffled_ids, contains_id,
};
use crate::sort::{Keyed, keyed_by, lemma_keyed_by_ids, lemma_keyed_by_push, sort_keyed, sort_by_key, take_ids, ids_of, top_keyed, top_ids};
use crate::rng::{seeded_rng, seeded_generator, choose_one};
use crate::energy::{energy_choice_ok, opt_attack_view, choose_energy_for_target, candidates};
use crate::ai::respond::{
    clamp, min_int, opt_or, end_turn_only, end_turn, declares_in_order, push_shuffled_attacks,
    prize_answer, answer_prizes, reorder_answer, answer_reorder, attached_energy_ok,
    respond_attached_energy, prompt_for_other,
};
use crate::ai::tactician::{capped3, lookup_targets, new_active_candidates, take_n, find_targets};
use crate::scoring::is_order;
use rand_chacha::ChaCha8Rng;

verus! {

broadcast use vstd::seq_lib::group_seq_properties;

/// Attack value: each energy of cost weighs 15, a Pokémon-ex defender adds 200.
pub open spec fn cost_weight() -> int { 15 }

pub open spec fn ex_bonus() -> int { 200 }

pub struct CandidateAi {
    rng: ChaCha8Rng,
}

impl CandidateAi {
    /// The player's generator.
    pub closed spec fn generator(&self) -> ChaCha8Rng {
        self.rng
    }

    /// A player whose random choices follow the ChaCha8 stream of `seed`.
    pub fn new(seed: u64) -> (r: CandidateAi)
        ensures
            r.generator() == seeded_generator(seed),
    {
        CandidateAi { rng: seeded_rng(seed) }
    }
}

// ---------------------------------------------------------------- energy target

/// How much `target` (the player's Pokémon `p`) wants the next energy card.
pub open spec fn attach_score(view: GameView, target: CardInstanceId, p: PokemonView, can_attack: bool) -> int {
    let e = p.attached_energy@.len() as int;
    matchup(p, view.opponent_active) + (if is_active_id(view, target) {
        (if can_attack { 30int } else { 80 }) + (if !can_attack { (3 - capped3(e)) * 6 } else { 0 })
    } else {
        25 + (if can_attack { (3 - capped3(e)) * 4 } else { -e * 2 })
    }) - (if p.special_conditions@.len() > 0 { 12int } else { 0 })
}

pub open spec fn attach_key(view: GameView, can_attack: bool) -> spec_fn(CardInstanceId) -> Option<(i64, i64)> {
    |id: CardInstanceId| match my_pokemon(view, id) {
        Some(p) => Some(((-attach_score(view, id, p, can_attack)) as i64, 0i64)),
        None => None,
    }
}

/// The energy target: `None` without targets; a random target when none is
/// one of the player's Pokémon; otherwise a random best-scored one.
pub open spec fn attach_target_ok(view: GameView, targets: Seq<CardInstanceId>, can_attack: bool, r: Option<CardInstanceId>) -> bool {
    let keys = keyed_by(targets, attach_key(view, can_attack));
    if targets.len() == 0 {
        r is None
    } else if keys.len() == 0 {
        r matches Some(x) && targets.contains(x)
    } else {
        r matches Some(x) && top_keyed(keys).contains(x)
    }
}

fn attach_target_score(view: &GameView, target: CardInstanceId, p: &PokemonView, can_attack: bool) -> (r: i64)
    requires
        energy_bounded(*p),
    ensures
        r == attach_score(*view, target, *p, can_attack),
{
    let energy = p.attached_energy.len() as i64;
    let capped = if energy < 3 { energy } else { 3 };
    let mut score = matchup_score_against_active(p, view.opponent_active.as_ref()) as i64;
    if is_my_active(view, target) {
        score = score + if can_attack { 30 } else { 80 };
        if !can_attack {
            score = score + (3 - capped) * 6;
        }
    } else {
        score = score + 25;
        if can_attack {
            score = score + (3 - capped) * 4;
        } else {
            score = score - energy * 2;
        }
    }
    if p.special_conditions.len() > 0 {
        score = score - 12;
    }
    score
}

fn choose_energy_attach_target(
    view: &GameView,
    attach_targets: &Vec<CardInstanceId>,
    can_attack_now: bool,
    rng: &mut ChaCha8Rng,
) -> (r: Option<CardInstanceId>)
    requires
        view_bounded(*view),
    ensures
        attach_target_ok(*view, attach_targets@, can_attack_now, r),
{
    if attach_targets.len() == 0 {
        return None;
    }
    let ghost f = attach_key(*view, can_attack_now);
    let mut scored: Vec<Keyed> = Vec::new();
    let mut i: usize = 0;
    while i < attach_targets.len()
        invariant
            i <= attach_targets@.len(),
            view_bounded(*view),
            f == attach_key(*view, can_attack_now),
            scored@ == keyed_by(attach_targets@.take(i as int), f),
        decreases attach_targets@.len() - i,
    {
        let target_id = attach_targets[i];
        proof {
            assert(attach_targets@.take(i + 1) =~= attach_targets@.take(i as int).push(target_id));
            lemma_keyed_by_push(attach_targets@.take(i as int), f, target_id);
            lemma_my_pokemon_bounded(*view, target_id);
        }
        match find_my_pokemon(view, target_id) {
            Some(p) => {
                let score = attach_target_score(view, target_id, p, can_attack_now);
                scored.push((-(score as i64), 0, target_id));
            },
            None => {},
        }
        i = i + 1;
    }
    assert(attach_targets@.take(i as int) =~= attach_targets@);
    if scored.len() == 0 {
        return choose_id(attach_targets, rng);
    }
    let sorted = sort_by_key(&scored);
    proof {
        crate::sort::lemma_sort_keyed_multiset(scored@);
    }
    let best_ids = top_ids(&sorted);
    proof {
        let g = |k: Keyed| k.0 == sorted@[0].0;
        assert(sorted@.contains(sorted@[0]));
        assert(sorted@.filter(g).contains(sorted@[0]));
        let j = choose|j: int| 0 <= j < sorted@.filter(g).len() && sorted@.filter(g)[j] == sorted@[0];
        assert(best_ids@[j] == sorted@[0].2);
    }
    choose_id(&best_ids, rng)
}

// ---------------------------------------------------------------- choosing Pokémon

/// How good a Pokémon is as the active one: twice its HP left, 12 per
/// attached energy, its matchup, 10 for a Pokémon-ex, less 30 under a
/// special condition.
pub open spec fn active_candidate_score(p: PokemonView, opponent: Option<PokemonView>) -> int {
    remaining(p) * 2 + p.attached_energy@.len() * 12 + matchup(p, opponent) + (if p.is_ex { 10int } else { 0 })
        - (if p.special_conditions@.len() > 0 { 30int } else { 0 })
}

fn score_active_candidate(p: &PokemonView, opponent: Option<&PokemonView>) -> (r: i64)
    requires
        energy_bounded(*p),
    ensures
        r == active_candidate_score(*p, crate::scoring::opt_ref(opponent)),
{
    let rem = remaining_hp(p) as i64;
    let energy = p.attached_energy.len() as i64;
    let mut score = rem * 2 + energy * 12;
    score = score + matchup_score_against_active(p, opponent) as i64;
    if p.is_ex {
        score = score + 10;
    }
    if p.special_conditions.len() > 0 {
        score = score - 30;
    }
    score
}

pub open spec fn candidate_key(view: GameView) -> spec_fn(CardInstanceId) -> Option<(i64, i64)> {
    |id: CardInstanceId| match my_pokemon(view, id) {
        Some(p) => Some(((-active_candidate_score(p, view.opponent_active)) as i64, 0i64)),
        None => None,
    }
}

/// The first best-scored option that is one of the player's Pokémon.
pub open spec fn best_candidate(view: GameView, options: Seq<CardInstanceId>) -> Option<CardInstanceId> {
    let keys = keyed_by(options, candidate_key(view));
    if keys.len() == 0 { None } else { Some(sort_keyed(keys)[0].2) }
}

/// How strong a Pokémon of the player is as an evolution target or a new
/// active Pokémon: twice its HP left, 12 per attached energy, its matchup
/// against the opponent's active Pokémon, 10 more for a Pokémon-ex and 30
/// less when it has a special condition.
pub open spec fn candidate_strength(view: GameView, p: PokemonView) -> int {
    2 * remaining(p) + 12 * p.attached_energy@.len() + matchup(p, view.opponent_active)
        + (if p.is_ex { 10int } else { 0 }) - (if p.special_conditions@.len() > 0 { 30int } else { 0 })
}

/// The best candidate is an option that is one of the player's Pokémon, and
/// no option that is one of the player's Pokémon is stronger; there is none
/// exactly when no option is one of the player's Pokémon.
pub proof fn lemma_best_candidate_is_strongest(view: GameView, options: Seq<CardInstanceId>)
    requires
        view_bounded(view),
    ensures
        best_candidate(view, options) is None <==> forall|k: int| 0 <= k < options.len() ==> my_pokemon(view, #[trigger] options[k]) is None,
        best_candidate(view, options) matches Some(c) ==> {
            &&& options.contains(c)
            &&& my_pokemon(view, c) is Some
            &&& forall|k: int| 0 <= k < options.len() && my_pokemon(view, #[trigger] options[k]) is Some
                ==> candidate_strength(view, my_pokemon(view, options[k]).unwrap()) <= candidate_strength(view, my_pokemon(view, c).unwrap())
        },
{
    let f = candidate_key(view);
    crate::sort::lemma_sorted_entries(options, f);
    let kb = keyed_by(options, f);
    let s = sort_keyed(kb);
    if exists|k: int| 0 <= k < options.len() && my_pokemon(view, #[trigger] options[k]) is Some {
        let w = choose|k: int| 0 <= k < options.len() && my_pokemon(view, #[trigger] options[k]) is Some;
        assert(f(options[w]) is Some);
        assert(s.contains((f(options[w]).unwrap().0, f(options[w]).unwrap().1, options[w])));
        assert(s.len() > 0);
        let c = s[0].2;
        assert(f(c) == Some((s[0].0, s[0].1)));
        lemma_my_pokemon_bounded(view, c);
        assert forall|k: int| 0 <= k < options.len() && my_pokemon(view, #[trigger] options[k]) is Some
            implies candidate_strength(view, my_pokemon(view, options[k]).unwrap()) <= candidate_strength(view, my_pokemon(view, c).unwrap()) by {
            let d = options[k];
            lemma_my_pokemon_bounded(view, d);
            assert(f(options[k]) is Some);
            let e = (f(d).unwrap().0, f(d).unwrap().1, d);
            assert(s.contains(e));
            let j = choose|j: int| 0 <= j < s.len() && s[j] == e;
            if j > 0 {
                assert(crate::sort::key_le(s[0], s[j]));
            }
        }
    } else {
        if kb.len() > 0 {
            lemma_keyed_by_ids(options, f);
            assert(s.len() > 0);
            assert(f(s[0].2) is Some);
            assert(options.contains(s[0].2));
            let k = choose|k: int| 0 <= k < options.len() && options[k] == s[0].2;
            assert(my_pokemon(view, options[k]) is Some);
        }
    }
}

/// The evolution target: the active Pokémon when it is among the targets,
/// otherwise one of the targets that is one of the player's Pokémon, and none
/// of those is stronger.
pub proof fn lemma_evolution_target_is_strongest(view: GameView, targets: Seq<CardInstanceId>)
    requires
        view_bounded(view),
    ensures
        best_evolution_target(view, targets) matches Some(t) ==> {
            &&& targets.contains(t)
            &&& ((view.my_active matches Some(a) && targets.contains(a.card.id)) ==> t == view.my_active.unwrap().card.id)
            &&& (!(view.my_active matches Some(a) && targets.contains(a.card.id)) ==> {
                &&& my_pokemon(view, t) is Some
                &&& forall|k: int| 0 <= k < targets.len() && my_pokemon(view, #[trigger] targets[k]) is Some
                    ==> candidate_strength(view, my_pokemon(view, targets[k]).unwrap()) <= candidate_strength(view, my_pokemon(view, t).unwrap())
            })
        },
{
    lemma_best_candidate_is_strongest(view, targets);
}

/// Each evolution the player tries is of a playable evolution card onto the
/// target that `best_evolution_target` picks among that card's targets.
pub proof fn lemma_evolve_pairs_targets(view: GameView, cards: Seq<CardInstanceId>)
    ensures
        forall|k: int| 0 <= k < evolve_pairs(view, cards).len() ==> {
            let pair = #[trigger] evolve_pairs(view, cards)[k];
            &&& cards.contains(pair.0)
            &&& lookup_targets(view.action_hints.evolve_targets_by_card_id@, pair.0) is Some
            &&& best_evolution_target(view, lookup_targets(view.action_hints.evolve_targets_by_card_id@, pair.0).unwrap()) == Some(pair.1)
        },
    decreases cards.len(),
{
    if cards.len() > 0 {
        let rest = cards.drop_last();
        lemma_evolve_pairs_targets(view, rest);
        let pr = evolve_pairs(view, rest);
        let pc = evolve_pairs(view, cards);
        assert forall|k: int| 0 <= k < pc.len() implies {
            let pair = #[trigger] pc[k];
            &&& cards.contains(pair.0)
            &&& lookup_targets(view.action_hints.evolve_targets_by_card_id@, pair.0) is Some
            &&& best_evolution_target(view, lookup_targets(view.action_hints.evolve_targets_by_card_id@, pair.0).unwrap()) == Some(pair.1)
        } by {
            if k < pr.len() {
                assert(pc[k] == pr[k]);
                let x = pr[k].0;
                assert(rest.contains(x));
                let i = choose|i: int| 0 <= i < rest.len() && rest[i] == x;
                assert(cards[i] == x);
            } else {
                assert(pc[k].0 == cards.last());
                assert(cards[cards.len() - 1] == cards.last());
            }
        }
    }
}

/// During its own turn, every evolution the player tries onto targets that
/// do not include its active Pokémon goes onto the strongest of them.
pub proof fn lemma_evolutions_go_to_strongest(view: GameView, acts: Seq<Action>)
    requires
        view_bounded(view),
        own_turn_ok(view, acts),
        view.current_player == view.player_id,
        !view.has_pending_prompt,
    ensures
        forall|k: int| #![trigger acts[k]] 0 <= k < evolve_pairs(view, view.action_hints.playable_evolution_ids@).len() ==> {
            let ts = lookup_targets(view.action_hints.evolve_targets_by_card_id@, acts[k]->EvolveFromHand_card_id).unwrap();
            let t = acts[k]->EvolveFromHand_target_id;
            &&& acts[k] is EvolveFromHand
            &&& view.action_hints.playable_evolution_ids@.contains(acts[k]->EvolveFromHand_card_id)
            &&& ts.contains(t)
            &&& (!(view.my_active matches Some(a) && ts.contains(a.card.id)) ==> {
                &&& my_pokemon(view, t) is Some
                &&& forall|j: int| 0 <= j < ts.len() && my_pokemon(view, #[trigger] ts[j]) is Some
                    ==> candidate_strength(view, my_pokemon(view, ts[j]).unwrap()) <= candidate_strength(view, my_pokemon(view, t).unwrap())
            })
        },
{
    let pairs = evolve_pairs(view, view.action_hints.playable_evolution_ids@);
    lemma_evolve_pairs_targets(view, view.action_hints.playable_evolution_ids@);
    let ne = pairs.len() as int;
    assert forall|k: int| #![trigger acts[k]] 0 <= k < ne implies {
        let ts = lookup_targets(view.action_hints.evolve_targets_by_card_id@, acts[k]->EvolveFromHand_card_id).unwrap();
        let t = acts[k]->EvolveFromHand_target_id;
        &&& acts[k] is EvolveFromHand
        &&& view.action_hints.playable_evolution_ids@.contains(acts[k]->EvolveFromHand_card_id)
        &&& ts.contains(t)
        &&& (!(view.my_active matches Some(a) && ts.contains(a.card.id)) ==> {
            &&& my_pokemon(view, t) is Some
            &&& forall|j: int| 0 <= j < ts.len() && my_pokemon(view, #[trigger] ts[j]) is Some
                ==> candidate_strength(view, my_pokemon(view, ts[j]).unwrap()) <= candidate_strength(view, my_pokemon(view, t).unwrap())
        })
    } by {
        assert(acts.subrange(0, ne)[k] == acts[k]);
        assert(acts[k] == (Action::EvolveFromHand { card_id: pairs[k].0, target_id: pairs[k].1 }));
        let ts = lookup_targets(view.action_hints.evolve_targets_by_card_id@, pairs[k].0).unwrap();
        lemma_evolution_target_is_strongest(view, ts);
    }
}

/// Asked for a new active Pokémon, the player names the strongest of its
/// candidates (the options, or its bench when none are offered).
pub proof fn lemma_new_active_is_strongest(view: GameView, prompt: Prompt, acts: Seq<Action>)
    requires
        view_bounded(view),
        prompt_response_ok(view, prompt, acts),
        prompt matches Prompt::ChooseNewActive { player, .. } && player == view.player_id,
    ensures
        ({
            let c = new_active_candidates(view, prompt->ChooseNewActive_options@);
            acts.len() > 0 ==> {
                &&& acts[0] matches Action::ChooseNewActive { card_id }
                &&& c.contains(acts[0]->ChooseNewActive_card_id)
                &&& my_pokemon(view, acts[0]->ChooseNewActive_card_id) is Some
                &&& forall|k: int| 0 <= k < c.len() && my_pokemon(view, #[trigger] c[k]) is Some
                    ==> candidate_strength(view, my_pokemon(view, c[k]).unwrap())
                        <= candidate_strength(view, my_pokemon(view, acts[0]->ChooseNewActive_card_id).unwrap())
            }
        }),
{
    let c = new_active_candidates(view, prompt->ChooseNewActive_options@);
    lemma_best_candidate_is_strongest(view, c);
}

fn choose_best_new_active(view: &GameView, options: &Vec<CardInstanceId>) -> (r: Option<CardInstanceId>)
    requires
        view_bounded(*view),
    ensures
        r == best_candidate(*view, options@),
{
    let ghost f = candidate_key(*view);
    let mut scored: Vec<Keyed> = Vec::new();
    let mut i: usize = 0;
    while i < options.len()
        invariant
            i <= options@.len(),
            view_bounded(*view),
            f == candidate_key(*view),
            scored@ == keyed_by(options@.take(i as int), f),
        decreases options@.len() - i,
    {
        let id = options[i];
        proof {
            assert(options@.take(i + 1) =~= options@.take(i as int).push(id));
            lemma_keyed_by_push(options@.take(i as int), f, id);
            lemma_my_pokemon_bounded(*view, id);
        }
        match find_my_pokemon(view, id) {
            Some(p) => {
                let score = score_active_candidate(p, view.opponent_active.as_ref());
                scored.push((-(score as i64), 0, id));
            },
            None => {},
        }
        i = i + 1;
    }
    assert(options@.take(i as int) =~= options@);
    if scored.len() == 0 {
        return None;
    }
    let sorted = sort_by_key(&scored);
    proof {
        crate::sort::lemma_sort_keyed_multiset(scored@);
    }
    Some(sorted[0].2)
}

/// The target to evolve: the active Pokémon when it is one of the options,
/// else the best candidate among them.
pub open spec fn best_evolution_target(view: GameView, options: Seq<CardInstanceId>) -> Option<CardInstanceId> {
    if options.len() == 0 {
        None
    } else if view.my_active matches Some(a) && options.contains(a.card.id) {
        Some(view.my_active.unwrap().card.id)
    } else {
        best_candidate(view, options)
    }
}

fn choose_best_evolution_target(view: &GameView, options: &Vec<CardInstanceId>) -> (r: Option<CardInstanceId>)
    requires
        view_bounded(*view),
    ensures
        r == best_evolution_target(*view, options@),
{
    if options.len() == 0 {
        return None;
    }
    if let Some(active) = &view.my_active {
        if contains_id(options, active.card.id) {
            return Some(active.card.id);
        }
    }
    choose_best_new_active(view, options)
}

/// Options ranked by HP left, the opponent's Pokémon before the player's own
/// (whose HP counts 2000 more); options that are neither are left out.
pub open spec fn low_hp_key(view: GameView) -> spec_fn(CardInstanceId) -> Option<(i64, i64)> {
    |id: CardInstanceId| match opponent_pokemon(view, id) {
        Some(p) => Some((remaining(p) as i64, 0i64)),
        None => match my_pokemon(view, id) {
            Some(p) => Some(((remaining(p) + 2000) as i64, 0i64)),
            None => None,
        },
    }
}

pub open spec fn low_hp_pick(view: GameView, options: Seq<CardInstanceId>, count: int) -> Seq<CardInstanceId> {
    let keys = keyed_by(options, low_hp_key(view));
    ids_of(sort_keyed(keys)).take(take_n(keys.len() as int, count))
}

fn pick_low_hp_targets(view: &GameView, options: &Vec<CardInstanceId>, count: usize) -> (r: Vec<CardInstanceId>)
    ensures
        r@ == low_hp_pick(*view, options@, count as int),
{
    let ghost f = low_hp_key(*view);
    let mut scored: Vec<Keyed> = Vec::new();
    let mut i: usize = 0;
    while i < options.len()
        invariant
            i <= options@.len(),
            f == low_hp_key(*view),
            scored@ == keyed_by(options@.take(i as int), f),
        decreases options@.len() - i,
    {
        let id = options[i];
        proof {
            assert(options@.take(i + 1) =~= options@.take(i as int).push(id));
            lemma_keyed_by_push(options@.take(i as int), f, id);
        }
        match find_opponent_pokemon(view, id) {
            Some(p) => {
                scored.push((remaining_hp(p) as i64, 0, id));
            },
            None => {
                match find_my_pokemon(view, id) {
                    Some(p) => {
                        scored.push((remaining_hp(p) as i64 + 2000, 0, id));
                    },
                    None => {},
                }
            },
        }
        i = i + 1;
    }
    assert(options@.take(i as int) =~= options@);
    let sorted = sort_by_key(&scored);
    proof {
        crate::sort::lemma_sort_keyed_multiset(scored@);
    }
    take_ids(&sorted, count)
}

// ---------------------------------------------------------------- prompts

pub open spec fn one_of_answer(options: Seq<CardInstanceId>, acts: Seq<Action>) -> bool {
    if options.len() == 0 {
        acts.len() == 0
    } else {
        acts.len() == 1 && (acts[0] matches Action::ChooseActive { card_id } && options.contains(card_id))
    }
}

/// Bench basics: four random options, within what the prompt allows.
pub open spec fn bench_desired(len: int, min: int, max: int) -> int {
    let rmin = min_int(min, len);
    let amax = if min_int(max, len) >= rmin { min_int(max, len) } else { rmin };
    if amax == 0 { 0 } else { clamp(4, rmin, amax) }
}

pub open spec fn bench_ok(options: Seq<CardInstanceId>, min: usize, max: usize, acts: Seq<Action>) -> bool {
    &&& acts.len() == 1
    &&& acts[0] matches Action::ChooseBench { card_ids } && picks_from(card_ids@, options, bench_desired(options.len() as int, min as int, max as int))
}

/// Attack prompt: the attack of best value, then every attack in a random order.
pub open spec fn attack_ok(view: GameView, attacks: Seq<Attack>, acts: Seq<Action>) -> bool {
    let n = attacks.len() as int;
    if n == 0 {
        acts.len() == 0
    } else {
        &&& acts.len() == n + 1
        &&& acts[0] matches Action::DeclareAttack { attack } && attack@ == attacks[best_attack_index(attacks, n, view.opponent_active, cost_weight(), ex_bonus())]@
        &&& exists|p: Seq<usize>| #![trigger is_order(p, n)] is_order(p, n) && declares_in_order(acts.skip(1), attacks, p)
    }
}

/// How many cards a search takes: the count, clamped to the prompt's
/// bounds and to the options.
pub open spec fn search_take(count: usize, len: int, min: Option<usize>, max: Option<usize>) -> int {
    min_int(clamp(count as int, opt_or(min, count), opt_or(max, count)), len)
}

/// Searches whose bounds are consistent when the prompt is the player's own.
pub open spec fn search_bounds_ok(view: GameView, player: PlayerId, count: usize, min: Option<usize>, max: Option<usize>) -> bool {
    player == view.player_id ==> opt_or(min, count) <= opt_or(max, count)
}

pub open spec fn prompt_ok(view: GameView, prompt: Prompt) -> bool {
    match prompt {
        Prompt::ChooseCardsFromDeck { player, count, min, max, .. } => search_bounds_ok(view, player, count, min, max),
        Prompt::ChooseCardsFromDiscard { player, count, min, max, .. } => search_bounds_ok(view, player, count, min, max),
        Prompt::ChooseCardsFromHand { player, count, min, max, .. } => search_bounds_ok(view, player, count, min, max),
        _ => true,
    }
}

/// Whether this player can answer the prompt: for its own search or hand
/// prompt the least count does not exceed the most.
pub fn prompt_is_answerable(view: &GameView, prompt: &Prompt) -> (r: bool)
    ensures
        r == prompt_ok(*view, *prompt),
{
    match prompt {
        Prompt::ChooseCardsFromDeck { player, count, min, max, .. }
        | Prompt::ChooseCardsFromDiscard { player, count, min, max, .. }
        | Prompt::ChooseCardsFromHand { player, count, min, max, .. } => {
            let lo = match min { Some(v) => *v, None => *count };
            let hi = match max { Some(v) => *v, None => *count };
            *player != view.player_id || lo <= hi
        },
        _ => true,
    }
}


pub open spec fn first_name_answer(names: Seq<String>, acts: Seq<Action>, pokemon_attack: bool) -> bool {
    if names.len() == 0 {
        acts.len() == 0
    } else if pokemon_attack {
        acts.len() == 1 && (acts[0] matches Action::ChoosePokemonAttack { attack_name } && attack_name@ == names[0]@)
    } else {
        acts.len() == 1 && (acts[0] matches Action::ChooseDefenderAttack { attack_name } && attack_name@ == names[0]@)
    }
}

/// The answer given to each prompt.
pub open spec fn prompt_response_ok(view: GameView, prompt: Prompt, acts: Seq<Action>) -> bool {
    match prompt {
        Prompt::ChooseStartingActive { options } => one_of_answer(options@, acts),
        Prompt::ChooseBenchBasics { options, min, max } => bench_ok(options@, min, max, acts),
        Prompt::ChooseAttack { attacks } => attack_ok(view, attacks@, acts),
        Prompt::ChooseCardsFromDeck { player, count, options, min, max, .. } => if player != view.player_id {
            end_turn_only(acts)
        } else {
            acts.len() == 1 && (acts[0] matches Action::TakeCardsFromDeck { card_ids } && picks_from(
                card_ids@,
                options@,
                search_take(count, options@.len() as int, min, max),
            ))
        },
        Prompt::ChooseCardsFromDiscard { player, count, options, min, max } => if player != view.player_id {
            end_turn_only(acts)
        } else {
            acts.len() == 1 && (acts[0] matches Action::TakeCardsFromDiscard { card_ids } && picks_from(
                card_ids@,
                options@,
                search_take(count, options@.len() as int, min, max),
            ))
        },
        Prompt::ChoosePokemonInPlay { player, options, min, max } => if player != view.player_id {
            end_turn_only(acts)
        } else {
            acts.len() == 1 && (acts[0] matches Action::ChoosePokemonTargets { target_ids } && target_ids@ == low_hp_pick(
                view,
                options@,
                min_int(min_int(min as int, max as int), options@.len() as int),
            ))
        },
        Prompt::ReorderDeckTop { player, options } => if player != view.player_id {
            end_turn_only(acts)
        } else {
            reorder_answer(options@, acts)
        },
        Prompt::ChooseAttachedEnergy { player, pokemon_id, count, min } => attached_energy_ok(view, player, pokemon_id, count, min, acts),
        Prompt::ChooseCardsFromHand { player, count, options, min, max, return_to_deck } => if player != view.player_id {
            end_turn_only(acts)
        } else if return_to_deck {
            acts.len() == 1 && (acts[0] matches Action::ReturnCardsFromHandToDeck { card_ids } && picks_from(
                card_ids@,
                options@,
                search_take(count, options@.len() as int, min, max),
            ))
        } else {
            acts.len() == 1 && (acts[0] matches Action::DiscardCardsFromHand { card_ids } && picks_from(
                card_ids@,
                options@,
                search_take(count, options@.len() as int, min, max),
            ))
        },
        Prompt::ChooseCardsInPlay { player, options, min, max } => if player != view.player_id {
            end_turn_only(acts)
        } else {
            acts.len() == 1 && (acts[0] matches Action::ChooseCardsInPlay { card_ids } && card_ids@ == low_hp_pick(
                view,
                options@,
                min_int(min_int(min as int, max as int), options@.len() as int),
            ))
        },
        Prompt::ChoosePrizeCards { player, options, min, max } => if player != view.player_id {
            end_turn_only(acts)
        } else {
            prize_answer(options@, min, max, acts)
        },
        Prompt::ChooseDefenderAttack { player, attacks } => if player != view.player_id {
            end_turn_only(acts)
        } else {
            first_name_answer(attacks@, acts, false)
        },
        Prompt::ChooseNewActive { player, options } => if player != view.player_id {
            end_turn_only(acts)
        } else {
            match best_candidate(view, new_active_candidates(view, options@)) {
                Some(id) => acts == seq![Action::ChooseNewActive { card_id: id }],
                None => acts.len() == 0,
            }
        },
        Prompt::ChoosePokemonAttack { player, attacks } => if player != view.player_id {
            end_turn_only(acts)
        } else {
            first_name_answer(attacks@, acts, true)
        },
        Prompt::ChooseSpecialCondition { player, options } => if player != view.player_id {
            end_turn_only(acts)
        } else if options@.len() == 0 {
            acts.len() == 0
        } else {
            acts == seq![Action::ChooseSpecialCondition { condition: options@[0] }]
        },
    }
}

fn single(a: Action) -> (r: Vec<Action>)
    ensures
        r@ == seq![a],
{
    let mut acts: Vec<Action> = Vec::new();
    acts.push(a);
    assert(acts@ =~= seq![a]);
    acts
}

fn search_count(count: usize, len: usize, min: Option<usize>, max: Option<usize>) -> (r: usize)
    requires
        opt_or(min, count) <= opt_or(max, count),
    ensures
        r == search_take(count, len as int, min, max),
{
    let required_min = match min {
        Some(v) => v,
        None => count,
    };
    let required_max = match max {
        Some(v) => v,
        None => count,
    };
    let desired = if count < required_min { required_min } else if count > required_max { required_max } else { count };
    if desired < len { desired } else { len }
}

fn respond_starting(options: &Vec<CardInstanceId>, rng: &mut ChaCha8Rng) -> (r: Vec<Action>)
    ensures
        one_of_answer(options@, r@),
{
    match choose_id(options, rng) {
        Some(card_id) => single(Action::ChooseActive { card_id }),
        None => Vec::new(),
    }
}

fn respond_bench(options: &Vec<CardInstanceId>, min: usize, max: usize, rng: &mut ChaCha8Rng) -> (r: Vec<Action>)
    ensures
        bench_ok(options@, min, max, r@),
{
    let required_min = if min < options.len() { min } else { options.len() };
    let m = if max < options.len() { max } else { options.len() };
    let allowed_max = if m >= required_min { m } else { required_min };
    let desired: usize = if allowed_max == 0 {
        0
    } else if 4 < required_min {
        required_min
    } else if 4 > allowed_max {
        allowed_max
    } else {
        4
    };
    let picked = choose_k(options, desired, rng);
    single(Action::ChooseBench { card_ids: picked })
}

fn respond_attack(view: &GameView, attacks: &Vec<Attack>, rng: &mut ChaCha8Rng) -> (r: Vec<Action>)
    ensures
        attack_ok(*view, attacks@, r@),
{
    let mut acts: Vec<Action> = Vec::new();
    if attacks.len() == 0 {
        return acts;
    }
    match best_attack_for_view(view, attacks, 15, 200) {
        Some(best) => {
            acts.push(Action::DeclareAttack { attack: best });
        },
        None => {},
    }
    let ghost first = acts@;
    push_shuffled_attacks(&mut acts, attacks, rng);
    proof {
        assert(acts@[0] == acts@.take(1)[0]);
        assert(first.len() == 1);
    }
    acts
}

/// The kinds of search answers: from the deck, from the discard pile, or
/// hand cards returned to the deck or discarded.
pub enum SearchKind {
    Deck,
    Discard,
    HandToDeck,
    HandToDiscard,
}

pub open spec fn search_answer(kind: SearchKind, a: Action, options: Seq<CardInstanceId>, take: int) -> bool {
    match kind {
        SearchKind::Deck => a matches Action::TakeCardsFromDeck { card_ids } && picks_from(card_ids@, options, take),
        SearchKind::Discard => a matches Action::TakeCardsFromDiscard { card_ids } && picks_from(card_ids@, options, take),
        SearchKind::HandToDeck => a matches Action::ReturnCardsFromHandToDeck { card_ids } && picks_from(card_ids@, options, take),
        SearchKind::HandToDiscard => a matches Action::DiscardCardsFromHand { card_ids } && picks_from(card_ids@, options, take),
    }
}

fn respond_search(
    view: &GameView,
    kind: SearchKind,
    player: PlayerId,
    count: usize,
    options: &Vec<CardInstanceId>,
    min: Option<usize>,
    max: Option<usize>,
    rng: &mut ChaCha8Rng,
) -> (r: Vec<Action>)
    requires
        search_bounds_ok(*view, player, count, min, max),
    ensures
        player != view.player_id ==> end_turn_only(r@) && *final(rng) == *old(rng),
        player == view.player_id ==> r@.len() == 1 && search_answer(kind, r@[0], options@, search_take(count, options@.len() as int, min, max)),
{
    if player != view.player_id {
        return end_turn();
    }
    let take = search_count(count, options.len(), min, max);
    let picked = choose_k(options, take, rng);
    match kind {
        SearchKind::Deck => single(Action::TakeCardsFromDeck { card_ids: picked }),
        SearchKind::Discard => single(Action::TakeCardsFromDiscard { card_ids: picked }),
        SearchKind::HandToDeck => single(Action::ReturnCardsFromHandToDeck { card_ids: picked }),
        SearchKind::HandToDiscard => single(Action::DiscardCardsFromHand { card_ids: picked }),
    }
}

fn respond_low_hp(view: &GameView, player: PlayerId, options: &Vec<CardInstanceId>, min: usize, max: usize, in_play: bool) -> (r: Vec<Action>)
    ensures
        player != view.player_id ==> end_turn_only(r@),
        player == view.player_id && !in_play ==> r@.len() == 1 && (r@[0] matches Action::ChoosePokemonTargets { target_ids } && target_ids@ == low_hp_pick(
            *view,
            options@,
            min_int(min_int(min as int, max as int), options@.len() as int),
        )),
        player == view.player_id && in_play ==> r@.len() == 1 && (r@[0] matches Action::ChooseCardsInPlay { card_ids } && card_ids@ == low_hp_pick(
            *view,
            options@,
            min_int(min_int(min as int, max as int), options@.len() as int),
        )),
{
    if player != view.player_id {
        return end_turn();
    }
    let a = if min < max { min } else { max };
    let take = if a < options.len() { a } else { options.len() };
    let picked = pick_low_hp_targets(view, options, take);
    if in_play {
        single(Action::ChooseCardsInPlay { card_ids: picked })
    } else {
        single(Action::ChoosePokemonTargets { target_ids: picked })
    }
}

fn respond_first_name(view: &GameView, player: PlayerId, attacks: &Vec<String>, pokemon_attack: bool) -> (r: Vec<Action>)
    ensures
        player != view.player_id ==> end_turn_only(r@),
        player == view.player_id ==> first_name_answer(attacks@, r@, pokemon_attack),
{
    if player != view.player_id {
        return end_turn();
    }
    if attacks.len() == 0 {
        return Vec::new();
    }
    if pokemon_attack {
        single(Action::ChoosePokemonAttack { attack_name: attacks[0].clone() })
    } else {
        single(Action::ChooseDefenderAttack { attack_name: attacks[0].clone() })
    }
}

fn respond_condition(view: &GameView, player: PlayerId, options: &Vec<crate::model::SpecialCondition>) -> (r: Vec<Action>)
    ensures
        player != view.player_id ==> end_turn_only(r@),
        player == view.player_id && options@.len() == 0 ==> r@.len() == 0,
        player == view.player_id && options@.len() > 0 ==> r@ == seq![Action::ChooseSpecialCondition { condition: options@[0] }],
{
    if player != view.player_id {
        return end_turn();
    }
    if options.len() > 0 {
        single(Action::ChooseSpecialCondition { condition: options[0] })
    } else {
        Vec::new()
    }
}

fn respond_new_active(view: &GameView, player: PlayerId, options: &Vec<CardInstanceId>) -> (r: Vec<Action>)
    requires
        view_bounded(*view),
    ensures
        player != view.player_id ==> end_turn_only(r@),
        player == view.player_id ==> match best_candidate(*view, new_active_candidates(*view, options@)) {
            Some(id) => r@ == seq![Action::ChooseNewActive { card_id: id }],
            None => r@.len() == 0,
        },
{
    if player != view.player_id {
        return end_turn();
    }
    let candidates: Vec<CardInstanceId> = if options.len() == 0 { bench_ids(&view.my_bench) } else { copy_ids(options) };
    match choose_best_new_active(view, &candidates) {
        Some(card_id) => single(Action::ChooseNewActive { card_id }),
        None => Vec::new(),
    }
}

/// The prompts this player answers without drawing from its generator:
/// Pokémon or cards in play, attack names, special conditions, a new active
/// Pokémon, and every prompt that is for the other player.
pub open spec fn answers_without_drawing(view: GameView, prompt: Prompt) -> bool {
    match prompt {
        Prompt::ChoosePokemonInPlay { .. } => true,
        Prompt::ChooseCardsInPlay { .. } => true,
        Prompt::ChooseDefenderAttack { .. } => true,
        Prompt::ChoosePokemonAttack { .. } => true,
        Prompt::ChooseSpecialCondition { .. } => true,
        Prompt::ChooseNewActive { .. } => true,
        _ => prompt_for_other(view, prompt),
    }
}

impl CandidateAi {
    /// The answers to try, in order, for a prompt.
    pub fn propose_prompt_response(&mut self, view: &GameView, prompt: &Prompt) -> (r: Vec<Action>)
        requires
            view_bounded(*view),
            prompt_ok(*view, *prompt),
        ensures
            prompt_response_ok(*view, *prompt, r@),
            answers_without_drawing(*view, *prompt) ==> final(self).generator() == old(self).generator(),
    {
        match prompt {
            Prompt::ChooseStartingActive { options } => respond_starting(options, &mut self.rng),
            Prompt::ChooseBenchBasics { options, min, max } => respond_bench(options, *min, *max, &mut self.rng),
            Prompt::ChooseAttack { attacks } => respond_attack(view, attacks, &mut self.rng),
            Prompt::ChooseCardsFromDeck { player, count, options, min, max, .. } => respond_search(
                view,
                SearchKind::Deck,
                *player,
                *count,
                options,
                *min,
                *max,
                &mut self.rng,
            ),
            Prompt::ChooseCardsFromDiscard { player, count, options, min, max } => respond_search(
                view,
                SearchKind::Discard,
                *player,
                *count,
                options,
                *min,
                *max,
                &mut self.rng,
            ),
            Prompt::ChoosePokemonInPlay { player, options, min, max } => respond_low_hp(view, *player, options, *min, *max, false),
            Prompt::ReorderDeckTop { player, options } => {
                if *player != view.player_id {
                    end_turn()
                } else {
                    answer_reorder(options, &mut self.rng)
                }
            },
            Prompt::ChooseAttachedEnergy { player, pokemon_id, count, min } => respond_attached_energy(
                view,
                *player,
                *pokemon_id,
                *count,
                *min,
                65,
                &mut self.rng,
            ),
            Prompt::ChooseCardsFromHand { player, count, options, min, max, return_to_deck } => respond_search(
                view,
                if *return_to_deck { SearchKind::HandToDeck } else { SearchKind::HandToDiscard },
                *player,
                *count,
                options,
                *min,
                *max,
                &mut self.rng,
            ),
            Prompt::ChooseCardsInPlay { player, options, min, max } => respond_low_hp(view, *player, options, *min, *max, true),
            Prompt::ChooseDefenderAttack { player, attacks } => respond_first_name(view, *player, attacks, false),
            Prompt::ChoosePokemonAttack { player, attacks } => respond_first_name(view, *player, attacks, true),
            Prompt::ChooseSpecialCondition { player, options } => respond_condition(view, *player, options),
            Prompt::ChoosePrizeCards { player, options, min, max } => {
                if *player != view.player_id {
                    end_turn()
                } else {
                    answer_prizes(options, *min, *max, &mut self.rng)
                }
            },
            Prompt::ChooseNewActive { player, options } => respond_new_active(view, *player, options),
        }
    }
}

// ---------------------------------------------------------------- own turn

/// The (evolution card, target) pairs to try: for each playable evolution
/// card with targets, the target `best_evolution_target` picks.
pub open spec fn evolve_pairs(view: GameView, cards: Seq<CardInstanceId>) -> Seq<(CardInstanceId, CardInstanceId)>
    decreases cards.len(),
{
    if cards.len() == 0 {
        seq![]
    } else {
        let rest = evolve_pairs(view, cards.drop_last());
        match lookup_targets(view.action_hints.evolve_targets_by_card_id@, cards.last()) {
            Some(ts) => match best_evolution_target(view, ts) {
                Some(target) => rest.push((cards.last(), target)),
                None => rest,
            },
            None => rest,
        }
    }
}

pub open spec fn basic_of(a: Action) -> CardInstanceId {
    match a {
        Action::PlayBasic { card_id } => card_id,
        _ => 0,
    }
}

pub open spec fn trainer_of(a: Action) -> CardInstanceId {
    match a {
        Action::PlayTrainer { card_id } => card_id,
        _ => 0,
    }
}

pub open spec fn evolutions_as(acts: Seq<Action>, pairs: Seq<(CardInstanceId, CardInstanceId)>) -> bool {
    acts.len() == pairs.len() && forall|k: int| 0 <= k < pairs.len() ==> #[trigger] acts[k] == (Action::EvolveFromHand { card_id: pairs[k].0, target_id: pairs[k].1 })
}

/// Room left on a bench of five.
pub open spec fn bench_space(view: GameView) -> int {
    if view.my_bench@.len() >= 5 { 0 } else { 5 - view.my_bench@.len() }
}

pub open spec fn best_usable(view: GameView) -> Option<AttackValue> {
    let n = view.action_hints.usable_attacks@.len() as int;
    if n > 0 {
        Some(view.action_hints.usable_attacks@[best_attack_index(view.action_hints.usable_attacks@, n, view.opponent_active, cost_weight(), ex_bonus())]@)
    } else {
        None
    }
}

/// A subrange of a prefix is the same subrange of the whole sequence.
pub proof fn lemma_prefix_subrange(s1: Seq<Action>, s2: Seq<Action>, a: int, b: int)
    requires
        s1.len() <= s2.len(),
        s2.take(s1.len() as int) == s1,
        0 <= a <= b <= s1.len(),
    ensures
        s2.subrange(a, b) == s1.subrange(a, b),
{
    assert(s2.subrange(a, b) =~= s1.subrange(a, b)) by {
        assert forall|k: int| 0 <= k < b - a implies s2.subrange(a, b)[k] == s1.subrange(a, b)[k] by {
            assert(s2.take(s1.len() as int)[a + k] == s2[a + k]);
        }
    }
}

fn push_evolutions(acts: &mut Vec<Action>, view: &GameView)
    requires
        view_bounded(*view),
    ensures
        final(acts)@.take(old(acts)@.len() as int) == old(acts)@,
        final(acts)@.len() == old(acts)@.len() + evolve_pairs(*view, view.action_hints.playable_evolution_ids@).len(),
        evolutions_as(final(acts)@.subrange(old(acts)@.len() as int, final(acts)@.len() as int), evolve_pairs(*view, view.action_hints.playable_evolution_ids@)),
{
    let ghost start = acts@;
    let hints = &view.action_hints;
    let cards = &hints.playable_evolution_ids;
    let mut i: usize = 0;
    while i < cards.len()
        invariant
            i <= cards@.len(),
            hints == &view.action_hints,
            cards == &hints.playable_evolution_ids,
            view_bounded(*view),
            acts@.len() >= start.len(),
            acts@.take(start.len() as int) == start,
            evolutions_as(acts@.subrange(start.len() as int, acts@.len() as int), evolve_pairs(*view, cards@.take(i as int))),
        decreases cards@.len() - i,
    {
        let card_id = cards[i];
        proof {
            assert(cards@.take(i + 1).drop_last() =~= cards@.take(i as int));
        }
        let ghost before = acts@;
        match find_targets(&hints.evolve_targets_by_card_id, card_id) {
            Some(targets) => {
                match choose_best_evolution_target(view, targets) {
                    Some(target_id) => {
                        acts.push(Action::EvolveFromHand { card_id, target_id });
                        proof {
                            assert(acts@.take(start.len() as int) =~= before.take(start.len() as int));
                            assert(acts@.subrange(start.len() as int, acts@.len() as int) =~= before.subrange(start.len() as int, before.len() as int).push(Action::EvolveFromHand { card_id, target_id }));
                        }
                    },
                    None => {},
                }
            },
            None => {},
        }
        i = i + 1;
    }
    assert(cards@.take(i as int) =~= cards@);
}

pub open spec fn basics_count(view: GameView) -> int {
    let h = view.action_hints;
    if bench_space(view) > 0 && h.playable_basic_ids@.len() > 0 {
        min_int(bench_space(view), h.playable_basic_ids@.len() as int)
    } else {
        0
    }
}

pub open spec fn basics_segment(seg: Seq<Action>, view: GameView) -> bool {
    &&& seg.len() == basics_count(view)
    &&& (forall|k: int| 0 <= k < seg.len() ==> (#[trigger] seg[k]) is PlayBasic)
    &&& picks_from(seg.map_values(|a: Action| basic_of(a)), view.action_hints.playable_basic_ids@, basics_count(view))
}

fn push_basics(acts: &mut Vec<Action>, view: &GameView, rng: &mut ChaCha8Rng)
    ensures
        final(acts)@.take(old(acts)@.len() as int) == old(acts)@,
        final(acts)@.len() == old(acts)@.len() + basics_count(*view),
        basics_segment(final(acts)@.subrange(old(acts)@.len() as int, final(acts)@.len() as int), *view),
{
    let ghost start = acts@;
    let hints = &view.action_hints;
    let space: usize = if view.my_bench.len() >= 5 { 0 } else { 5 - view.my_bench.len() };
    if space > 0 && hints.playable_basic_ids.len() > 0 {
        let basics = shuffled_ids(&hints.playable_basic_ids, rng);
        let nb = if space < basics.len() { space } else { basics.len() };
        let mut k: usize = 0;
        while k < nb
            invariant
                k <= nb <= basics@.len(),
                acts@.len() == start.len() + k,
                acts@.take(start.len() as int) == start,
                forall|j: int| 0 <= j < k ==> (#[trigger] acts@.subrange(start.len() as int, start.len() + k)[j]) is PlayBasic,
                acts@.subrange(start.len() as int, start.len() + k).map_values(|a: Action| basic_of(a)) == basics@.take(k as int),
            decreases nb - k,
        {
            let ghost before = acts@;
            acts.push(Action::PlayBasic { card_id: basics[k] });
            proof {
                assert(acts@.take(start.len() as int) =~= before.take(start.len() as int));
                assert(acts@.subrange(start.len() as int, start.len() + k + 1) =~= before.subrange(start.len() as int, start.len() + k).push(Action::PlayBasic { card_id: basics@[k as int] }));
                assert(acts@.subrange(start.len() as int, start.len() + k + 1).map_values(|a: Action| basic_of(a)) =~= basics@.take(k + 1));
            }
            k = k + 1;
        }
        proof {
            crate::scoring::lemma_take_subset(basics@, nb as int);
        }
    } else {
        assert(acts@.subrange(start.len() as int, acts@.len() as int) =~= Seq::<Action>::empty());
        assert(acts@.take(start.len() as int) =~= start);
    }
}

pub open spec fn trainers_segment(seg: Seq<Action>, view: GameView) -> bool {
    &&& seg.len() == view.action_hints.playable_trainer_ids@.len()
    &&& (forall|k: int| 0 <= k < seg.len() ==> (#[trigger] seg[k]) is PlayTrainer)
    &&& seg.map_values(|a: Action| trainer_of(a)).to_multiset() == view.action_hints.playable_trainer_ids@.to_multiset()
}

fn push_trainers(acts: &mut Vec<Action>, view: &GameView, rng: &mut ChaCha8Rng)
    ensures
        final(acts)@.take(old(acts)@.len() as int) == old(acts)@,
        final(acts)@.len() == old(acts)@.len() + view.action_hints.playable_trainer_ids@.len(),
        trainers_segment(final(acts)@.subrange(old(acts)@.len() as int, final(acts)@.len() as int), *view),
{
    let ghost start = acts@;
    let hints = &view.action_hints;
    if hints.playable_trainer_ids.len() > 0 {
        let trainers = shuffled_ids(&hints.playable_trainer_ids, rng);
        let mut k: usize = 0;
        while k < trainers.len()
            invariant
                k <= trainers@.len(),
                acts@.len() == start.len() + k,
                acts@.take(start.len() as int) == start,
                forall|j: int| 0 <= j < k ==> (#[trigger] acts@.subrange(start.len() as int, start.len() + k)[j]) is PlayTrainer,
                acts@.subrange(start.len() as int, start.len() + k).map_values(|a: Action| trainer_of(a)) == trainers@.take(k as int),
            decreases trainers@.len() - k,
        {
            let ghost before = acts@;
            acts.push(Action::PlayTrainer { card_id: trainers[k] });
            proof {
                assert(acts@.take(start.len() as int) =~= before.take(start.len() as int));
                assert(acts@.subrange(start.len() as int, start.len() + k + 1) =~= before.subrange(start.len() as int, start.len() + k).push(Action::PlayTrainer { card_id: trainers@[k as int] }));
                assert(acts@.subrange(start.len() as int, start.len() + k + 1).map_values(|a: Action| trainer_of(a)) =~= trainers@.take(k + 1));
            }
            k = k + 1;
        }
        assert(trainers@.take(k as int) =~= trainers@);
        assert(acts@.subrange(start.len() as int, acts@.len() as int) == acts@.subrange(start.len() as int, start.len() + k));
    } else {
        assert(acts@.subrange(start.len() as int, acts@.len() as int) =~= Seq::<Action>::empty());
        assert(acts@.take(start.len() as int) =~= start);
        assert(hints.playable_trainer_ids@ =~= Seq::<CardInstanceId>::empty());
        assert(Seq::<Action>::empty().map_values(|a: Action| trainer_of(a)) =~= Seq::<CardInstanceId>::empty());
    }
}

pub open spec fn attach_count(view: GameView) -> int {
    let h = view.action_hints;
    if h.playable_energy_ids@.len() > 0 && h.attach_targets@.len() > 0 && candidates(h.playable_energy_ids@, view.my_hand@).len() > 0 { 1 } else { 0 }
}

pub open spec fn attach_action_ok(a: Action, view: GameView) -> bool {
    let h = view.action_hints;
    a matches Action::AttachEnergy { energy_id, target_id }
        && attach_target_ok(view, h.attach_targets@, h.can_declare_attack && h.usable_attacks@.len() > 0, Some(target_id))
        && energy_choice_ok(view, target_id, best_usable(view), Some(energy_id))
}

fn push_attach(acts: &mut Vec<Action>, view: &GameView, rng: &mut ChaCha8Rng)
    requires
        view_bounded(*view),
    ensures
        final(acts)@.take(old(acts)@.len() as int) == old(acts)@,
        final(acts)@.len() == old(acts)@.len() + attach_count(*view),
        attach_count(*view) == 1 ==> attach_action_ok(final(acts)@[old(acts)@.len() as int], *view),
{
    let ghost start = acts@;
    let hints = &view.action_hints;
    if hints.playable_energy_ids.len() > 0 && hints.attach_targets.len() > 0 {
        let best_attack = best_attack_for_view(view, &hints.usable_attacks, 15, 200);
        let can_attack_now = hints.can_declare_attack && best_attack.is_some();
        let best_ref = best_attack.as_ref();
        assert(opt_attack_view(best_ref) == best_usable(*view));
        match choose_energy_attach_target(view, &hints.attach_targets, can_attack_now, rng) {
            Some(target_id) => {
                match choose_energy_for_target(view, target_id, best_ref, rng) {
                    Some(energy_id) => {
                        acts.push(Action::AttachEnergy { energy_id, target_id });
                    },
                    None => {},
                }
            },
            None => {},
        }
    }
    assert(acts@.take(start.len() as int) =~= start);
}

/// The actions tried during the player's own turn, in order: every
/// evolution it can make, basics up to a full bench (random ones), every
/// trainer (in a random order), an energy attachment, the attack of best
/// value, and ending the turn.
pub open spec fn own_turn_ok(view: GameView, acts: Seq<Action>) -> bool {
    let h = view.action_hints;
    let ne = evolve_pairs(view, h.playable_evolution_ids@).len() as int;
    let nb = basics_count(view);
    let nt = h.playable_trainer_ids@.len() as int;
    let na = attach_count(view);
    let nd = if h.can_declare_attack && h.usable_attacks@.len() > 0 { 1int } else { 0 };
    let nend = if h.can_end_turn { 1int } else { 0 };
    if view.current_player != view.player_id || view.has_pending_prompt {
        acts.len() == 0
    } else {
        &&& acts.len() == ne + nb + nt + na + nd + nend
        &&& evolutions_as(acts.subrange(0, ne), evolve_pairs(view, h.playable_evolution_ids@))
        &&& basics_segment(acts.subrange(ne, ne + nb), view)
        &&& trainers_segment(acts.subrange(ne + nb, ne + nb + nt), view)
        &&& (na == 1 ==> attach_action_ok(acts[ne + nb + nt], view))
        &&& (nd == 1 ==> (acts[ne + nb + nt + na] matches Action::DeclareAttack { attack } && Some(attack@) == best_usable(view)))
        &&& (nend == 1 ==> acts.last() is EndTurn)
    }
}

impl CandidateAi {
    /// The actions to try, in order, during the player's own turn.
    pub fn propose_free_actions(&mut self, view: &GameView) -> (r: Vec<Action>)
        requires
            view_bounded(*view),
        ensures
            own_turn_ok(*view, r@),
            view.current_player != view.player_id || view.has_pending_prompt ==> final(self).generator() == old(self).generator(),
    {
        let mut actions: Vec<Action> = Vec::new();
        if view.current_player != view.player_id {
            return actions;
        }
        if view.has_pending_prompt {
            return actions;
        }
        let hints = &view.action_hints;
        push_evolutions(&mut actions, view);
        let ghost s1 = actions@;
        push_basics(&mut actions, view, &mut self.rng);
        let ghost s2 = actions@;
        push_trainers(&mut actions, view, &mut self.rng);
        let ghost s3 = actions@;
        push_attach(&mut actions, view, &mut self.rng);
        let ghost s4 = actions@;
        if hints.can_declare_attack {
            match best_attack_for_view(view, &hints.usable_attacks, 15, 200) {
                Some(best) => {
                    actions.push(Action::DeclareAttack { attack: best });
                },
                None => {},
            }
        }
        let ghost s5 = actions@;
        if hints.can_end_turn {
            actions.push(Action::EndTurn);
        }
        proof {
            assert(s1.take(0) =~= Seq::<Action>::empty());
            assert(actions@.take(s5.len() as int) =~= s5);
            assert(s5.take(s4.len() as int) =~= s4);
            lemma_prefix_subrange(s4, s5, 0, s4.len() as int);
            lemma_prefix_subrange(s5, actions@, 0, s5.len() as int);
            assert(actions@.take(s4.len() as int) =~= s4) by {
                assert(actions@.subrange(0, s4.len() as int) == s4.subrange(0, s4.len() as int));
                assert(s4.subrange(0, s4.len() as int) =~= s4);
            }
            lemma_prefix_subrange(s3, s4, 0, s3.len() as int);
            assert(actions@.take(s3.len() as int) =~= s3) by {
                lemma_prefix_subrange(s4, actions@, 0, s3.len() as int);
                assert(s3.subrange(0, s3.len() as int) =~= s3);
            }
            assert(actions@.take(s2.len() as int) =~= s2) by {
                lemma_prefix_subrange(s3, actions@, 0, s2.len() as int);
                lemma_prefix_subrange(s2, s3, 0, s2.len() as int);
                assert(s2.subrange(0, s2.len() as int) =~= s2);
            }
            assert(actions@.take(s1.len() as int) =~= s1) by {
                lemma_prefix_subrange(s2, actions@, 0, s1.len() as int);
                lemma_prefix_subrange(s1, s2, 0, s1.len() as int);
                assert(s1.subrange(0, s1.len() as int) =~= s1);
            }
            lemma_prefix_subrange(s1, actions@, 0, s1.len() as int);
            lemma_prefix_subrange(s2, actions@, s1.len() as int, s2.len() as int);
            lemma_prefix_subrange(s3, actions@, s2.len() as int, s3.len() as int);
            if attach_count(*view) == 1 {
                assert(actions@[s3.len() as int] == s4[s3.len() as int]) by {
                    assert(actions@.take(s4.len() as int)[s3.len() as int] == actions@[s3.len() as int]);
                }
            }
            if hints.can_declare_attack && hints.usable_attacks@.len() > 0 {
                assert(actions@[s4.len() as int] == s5[s4.len() as int]) by {
                    assert(actions@.take(s5.len() as int)[s4.len() as int] == actions@[s4.len() as int]);
                }
            }
            assert(s1.subrange(0, s1.len() as int) =~= s1);
        }
        actions
    }
}

} // verus!
