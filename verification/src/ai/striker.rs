//! A simple heuristic player that always goes for the hardest-hitting
//! attack: it starts and benches playable basics, declares the attack with
//! the most damage (the cheapest among equals), and otherwise attaches a
//! random energy and plays a random basic.
use vstd::prelude::*;
use crate::model::{Action, Attack, AttackValue, CardInstanceId, GameView, Prompt, copy_ids, copy_attack, dummy_attack};
use crate::scoring::{choose_k, choose_id, picks_from, keep_allowed, filter_allowed, bench_ids, is_order};
use crate::sort::{last_max_index, last_max, lemma_last_max_index, pair_gt};
use crate::rng::{seeded_rng, seeded_generator};
use crate::ai::respond::{
    end_turn_only, end_turn, declares_in_order, push_shuffled_attacks, new_active_tail, push_shuffled_new_actives,
};
use crate::ai::tactician::new_active_candidates;
use rand_chacha::ChaCha8Rng;

verus! {

broadcast use vstd::seq_lib::group_seq_properties;

pub struct CandidateAi {
    rng: ChaCha8Rng,
}

impl CandidateAi {
    /// The player's generator.
    pub closed spec fn generator(&self) -> ChaCha8Rng {
        self.rng
    }

    /// A player whose random choices follow the ChaCha8 stream of `seed`.
    pub fn new(seed: u64) -> (r: CandidateAi)
        ensures
            r.generator() == seeded_generator(seed),
    {
        CandidateAi { rng: seeded_rng(seed) }
    }
}

/// Attacks ranked by damage, then by lower total cost.
pub open spec fn damage_keys(attacks: Seq<Attack>) -> Seq<(i64, i64)> {
    Seq::new(attacks.len(), |i: int| (attacks[i]@.damage as i64, (-attacks[i]@.total_energy) as i64))
}

/// The attack with the most damage, the cheapest among equals and the last
/// among those.
pub open spec fn strongest(attacks: Seq<Attack>) -> Option<AttackValue> {
    if attacks.len() == 0 {
        None
    } else {
        Some(attacks[last_max_index(damage_keys(attacks), attacks.len() as int)]@)
    }
}

pub fn best_attack(attacks: &Vec<Attack>) -> (r: Option<Attack>)
    ensures
        r is None <==> attacks@.len() == 0,
        r matches Some(a) ==> Some(a@) == strongest(attacks@),
{
    if attacks.len() == 0 {
        return None;
    }
    let ghost keys = damage_keys(attacks@);
    let mut scored: Vec<(i64, i64)> = Vec::new();
    let mut i: usize = 0;
    while i < attacks.len()
        invariant
            i <= attacks@.len(),
            keys == damage_keys(attacks@),
            scored@ == keys.take(i as int),
        decreases attacks@.len() - i,
    {
        scored.push((attacks[i].damage as i64, -(attacks[i].cost.total_energy as i64)));
        i = i + 1;
        assert(scored@ =~= keys.take(i as int));
    }
    assert(keys.take(i as int) =~= keys);
    Some(copy_attack(&attacks[last_max(&scored)]))
}

/// No attack deals more damage than the strongest one, and none with equal
/// damage costs less.
pub proof fn lemma_strongest_is_maximal(attacks: Seq<Attack>)
    requires
        attacks.len() > 0,
    ensures
        forall|j: int| 0 <= j < attacks.len() ==> {
            let best = strongest(attacks).unwrap();
            (#[trigger] attacks[j]@).damage <= best.damage
                && (attacks[j]@.damage == best.damage ==> attacks[j]@.total_energy >= best.total_energy)
        },
{
    let keys = damage_keys(attacks);
    lemma_last_max_index(keys, attacks.len() as int);
    let b = last_max_index(keys, attacks.len() as int);
    assert forall|j: int| 0 <= j < attacks.len() implies {
        let best = strongest(attacks).unwrap();
        (#[trigger] attacks[j]@).damage <= best.damage
            && (attacks[j]@.damage == best.damage ==> attacks[j]@.total_energy >= best.total_energy)
    } by {
        assert(!pair_gt(keys[j], keys[b]));
    }
}

// ---------------------------------------------------------------- prompts

/// How many playable basics to bench: one more than the least allowed, within
/// the prompt's bounds and the playable options.
pub open spec fn bench_goal(valid: int, min: int, max: int) -> int {
    let required = if min < valid { min } else { valid };
    let most = if max < valid { max } else { valid };
    let allowed = if most < required { required } else { most };
    if required + 1 < allowed { required + 1 } else { allowed }
}

pub open spec fn prompt_response_ok(view: GameView, prompt: Prompt, acts: Seq<Action>) -> bool {
    let playable = view.action_hints.playable_basic_ids@;
    match prompt {
        Prompt::ChooseStartingActive { options } => {
            let valid = keep_allowed(options@, playable);
            if valid.len() == 0 {
                acts.len() == 0
            } else {
                acts == seq![Action::ChooseActive { card_id: valid[0] }]
            }
        },
        Prompt::ChooseBenchBasics { options, min, max } => {
            let valid = keep_allowed(options@, playable);
            acts.len() == 1 && (acts[0] matches Action::ChooseBench { card_ids } && picks_from(
                card_ids@,
                valid,
                bench_goal(valid.len() as int, min as int, max as int),
            ))
        },
        Prompt::ChooseAttack { attacks } => {
            let n = attacks@.len() as int;
            if n == 0 {
                acts.len() == 0
            } else {
                &&& acts.len() == n + 1
                &&& acts[0] matches Action::DeclareAttack { attack } && Some(attack@) == strongest(attacks@)
                &&& exists|p: Seq<usize>| #![trigger is_order(p, n)] is_order(p, n) && declares_in_order(acts.skip(1), attacks@, p)
            }
        },
        Prompt::ChooseNewActive { player, options } => {
            let c = new_active_candidates(view, options@);
            if player != view.player_id {
                end_turn_only(acts)
            } else if c.len() == 0 {
                acts.len() == 0
            } else {
                &&& acts.len() == c.len() + 1
                &&& acts[0] == (Action::ChooseNewActive { card_id: c[0] })
                &&& new_active_tail(acts.skip(1), c)
            }
        },
        _ => acts.len() == 0,
    }
}

fn respond_bench(view: &GameView, options: &Vec<CardInstanceId>, min: usize, max: usize, rng: &mut ChaCha8Rng) -> (r: Vec<Action>)
    ensures
        prompt_response_ok(*view, Prompt::ChooseBenchBasics { options: *options, min, max }, r@),
{
    let valid = filter_allowed(options, &view.action_hints.playable_basic_ids);
    let required = if min < valid.len() { min } else { valid.len() };
    let most = if max < valid.len() { max } else { valid.len() };
    let allowed = if most < required { required } else { most };
    let desired = if required < allowed { required + 1 } else { allowed };
    let picked = choose_k(&valid, desired, rng);
    let mut acts: Vec<Action> = Vec::new();
    acts.push(Action::ChooseBench { card_ids: picked });
    acts
}

fn respond_attack(attacks: &Vec<Attack>, rng: &mut ChaCha8Rng) -> (r: Vec<Action>)
    ensures
        attacks@.len() == 0 ==> r@.len() == 0,
        attacks@.len() > 0 ==> {
            &&& r@.len() == attacks@.len() + 1
            &&& r@[0] matches Action::DeclareAttack { attack } && Some(attack@) == strongest(attacks@)
            &&& exists|p: Seq<usize>| #![trigger is_order(p, attacks@.len() as int)]
                is_order(p, attacks@.len() as int) && declares_in_order(r@.skip(1), attacks@, p)
        },
{
    let mut acts: Vec<Action> = Vec::new();
    if attacks.len() == 0 {
        return acts;
    }
    match best_attack(attacks) {
        Some(best) => {
            acts.push(Action::DeclareAttack { attack: best });
        },
        None => {},
    }
    let ghost first = acts@;
    push_shuffled_attacks(&mut acts, attacks, rng);
    proof {
        assert(acts@[0] == acts@.take(1)[0]);
        assert(first.len() == 1);
    }
    acts
}

fn respond_new_active(view: &GameView, options: &Vec<CardInstanceId>, rng: &mut ChaCha8Rng) -> (r: Vec<Action>)
    ensures
        new_active_candidates(*view, options@).len() == 0 ==> r@.len() == 0,
        new_active_candidates(*view, options@).len() > 0 ==> {
            let c = new_active_candidates(*view, options@);
            &&& r@.len() == c.len() + 1
            &&& r@[0] == (Action::ChooseNewActive { card_id: c[0] })
            &&& new_active_tail(r@.skip(1), c)
        },
{
    let candidates: Vec<CardInstanceId> = if options.len() == 0 { bench_ids(&view.my_bench) } else { copy_ids(options) };
    assert(candidates@ == new_active_candidates(*view, options@));
    let mut acts: Vec<Action> = Vec::new();
    if candidates.len() == 0 {
        return acts;
    }
    acts.push(Action::ChooseNewActive { card_id: candidates[0] });
    let ghost first = acts@;
    push_shuffled_new_actives(&mut acts, &candidates, rng);
    proof {
        assert(acts@[0] == acts@.take(1)[0]);
        assert(first.len() == 1);
    }
    acts
}

/// The prompts this player answers without drawing from its generator:
/// every prompt but the bench, attacks and its own new active Pokémon.
pub open spec fn answers_without_drawing(view: GameView, prompt: Prompt) -> bool {
    match prompt {
        Prompt::ChooseBenchBasics { .. } => false,
        Prompt::ChooseAttack { .. } => false,
        Prompt::ChooseNewActive { player, .. } => player != view.player_id,
        _ => true,
    }
}

impl CandidateAi {
    /// The answers to try, in order, for a prompt.
    pub fn propose_prompt_response(&mut self, view: &GameView, prompt: &Prompt) -> (r: Vec<Action>)
        ensures
            prompt_response_ok(*view, *prompt, r@),
            answers_without_drawing(*view, *prompt) ==> final(self).generator() == old(self).generator(),
    {
        match prompt {
            Prompt::ChooseStartingActive { options } => {
                let valid = filter_allowed(options, &view.action_hints.playable_basic_ids);
                let mut acts: Vec<Action> = Vec::new();
                if valid.len() > 0 {
                    acts.push(Action::ChooseActive { card_id: valid[0] });
                    assert(acts@ =~= seq![Action::ChooseActive { card_id: valid@[0] }]);
                }
                acts
            },
            Prompt::ChooseBenchBasics { options, min, max } => respond_bench(view, options, *min, *max, &mut self.rng),
            Prompt::ChooseAttack { attacks } => respond_attack(attacks, &mut self.rng),
            Prompt::ChooseNewActive { player, options } => {
                if *player != view.player_id {
                    end_turn()
                } else {
                    respond_new_active(view, options, &mut self.rng)
                }
            },
            _ => Vec::new(),
        }
    }
}

// ---------------------------------------------------------------- own turn

/// The actions tried during the player's own turn, in order: a random
/// playable energy onto a random target, the strongest usable attack (or
/// "any attack" when none is listed but attacking is allowed), a random
/// playable basic, and ending the turn.
pub open spec fn own_turn_ok(view: GameView, acts: Seq<Action>) -> bool {
    let h = view.action_hints;
    let na = if h.playable_energy_ids@.len() > 0 && h.attach_targets@.len() > 0 { 1int } else { 0 };
    let nd = if h.usable_attacks@.len() > 0 || h.can_declare_attack { 1int } else { 0 };
    let nb = if h.playable_basic_ids@.len() > 0 { 1int } else { 0 };
    if view.current_player != view.player_id || view.has_pending_prompt {
        acts.len() == 0
    } else {
        &&& acts.len() == na + nd + nb + 1
        &&& (na == 1 ==> (acts[0] matches Action::AttachEnergy { energy_id, target_id }
            && h.playable_energy_ids@.contains(energy_id) && h.attach_targets@.contains(target_id)))
        &&& (nd == 1 ==> (acts[na] matches Action::DeclareAttack { attack } && if h.usable_attacks@.len() > 0 {
            Some(attack@) == strongest(h.usable_attacks@)
        } else {
            attack@.name.len() == 0 && attack@.damage == 0 && attack@.total_energy == 0 && attack@.cost_types.len() == 0
                && attack@.effect is None
        }))
        &&& (nb == 1 ==> (acts[na + nd] matches Action::PlayBasic { card_id } && h.playable_basic_ids@.contains(card_id)))
        &&& acts.last() is EndTurn
    }
}

impl CandidateAi {
    /// The actions to try, in order, during the player's own turn.
    pub fn propose_free_actions(&mut self, view: &GameView) -> (r: Vec<Action>)
        ensures
            own_turn_ok(*view, r@),
            view.current_player != view.player_id || view.has_pending_prompt ==> final(self).generator() == old(self).generator(),
    {
        let mut actions: Vec<Action> = Vec::new();
        if view.current_player != view.player_id {
            return actions;
        }
        if view.has_pending_prompt {
            return actions;
        }
        let hints = &view.action_hints;
        if let Some(energy_id) = choose_id(&hints.playable_energy_ids, &mut self.rng) {
            if let Some(target_id) = choose_id(&hints.attach_targets, &mut self.rng) {
                actions.push(Action::AttachEnergy { energy_id, target_id });
            }
        }
        if let Some(best) = best_attack(&hints.usable_attacks) {
            actions.push(Action::DeclareAttack { attack: best });
        } else if hints.can_declare_attack {
            actions.push(Action::DeclareAttack { attack: dummy_attack() });
        }
        if let Some(card_id) = choose_id(&hints.playable_basic_ids, &mut self.rng) {
            actions.push(Action::PlayBasic { card_id });
        }
        actions.push(Action::EndTurn);
        actions
    }
}

} // verus!
