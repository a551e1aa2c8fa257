//! Answers to prompts that several players give in the same way, and the
//! vocabulary their contracts are written in.
use vstd::prelude::*;
use crate::model::{Action, Prompt, Attack, AttackValue, CardInstanceId, GameView, PlayerId, SpecialCondition, Type, copy_vec, copy_attack, dummy_attack};
use crate::scoring::{lex_lt, lemma_lex_lt_irreflexive, lemma_lex_lt_transitive, lemma_lex_lt_total, string_lt, is_order, shuffled_order, shuffled_ids, picks_from, choose_k, my_pokemon, find_my_pokemon, ids_of_cards, card_ids, lemma_take_subset};
use crate::rng::gen_ratio;
use rand_chacha::ChaCha8Rng;

verus! {

broadcast use vstd::seq_lib::group_seq_properties;

pub open spec fn clamp(x: int, lo: int, hi: int) -> int {
    if x < lo { lo } else if x > hi { hi } else { x }
}

pub open spec fn min_int(a: int, b: int) -> int {
    if a <= b { a } else { b }
}

pub open spec fn max_int(a: int, b: int) -> int {
    if a >= b { a } else { b }
}

pub open spec fn opt_or(o: Option<usize>, d: usize) -> int {
    match o {
        Some(v) => v as int,
        None => d as int,
    }
}

/// The answer to a prompt meant for the other player: end the turn.
pub open spec fn end_turn_only(acts: Seq<Action>) -> bool {
    acts.len() == 1 && acts[0] is EndTurn
}

/// The player a prompt is addressed to, for the prompts that name one.
pub open spec fn prompt_player(prompt: Prompt) -> Option<PlayerId> {
    match prompt {
        Prompt::ChooseCardsFromDeck { player, .. } => Some(player),
        Prompt::ChooseCardsFromDiscard { player, .. } => Some(player),
        Prompt::ChoosePokemonInPlay { player, .. } => Some(player),
        Prompt::ReorderDeckTop { player, .. } => Some(player),
        Prompt::ChooseAttachedEnergy { player, .. } => Some(player),
        Prompt::ChooseCardsFromHand { player, .. } => Some(player),
        Prompt::ChooseCardsInPlay { player, .. } => Some(player),
        Prompt::ChoosePrizeCards { player, .. } => Some(player),
        Prompt::ChooseDefenderAttack { player, .. } => Some(player),
        Prompt::ChooseNewActive { player, .. } => Some(player),
        Prompt::ChoosePokemonAttack { player, .. } => Some(player),
        Prompt::ChooseSpecialCondition { player, .. } => Some(player),
        _ => None,
    }
}

/// The prompt names a player other than the one who sees the view.
pub open spec fn prompt_for_other(view: GameView, prompt: Prompt) -> bool {
    prompt_player(prompt) matches Some(p) && p != view.player_id
}

// ---------------------------------------------------------------- names

/// The index of the greatest name among the first `n` (the last among equals).
pub open spec fn max_name_index(names: Seq<String>, n: int) -> int
    decreases n,
{
    if n <= 1 {
        0
    } else {
        let b = max_name_index(names, n - 1);
        if lex_lt(names[n - 1]@, names[b]@) { b } else { n - 1 }
    }
}

/// The chosen name is the greatest: no name among the first `n` comes after
/// it in character order.
pub proof fn lemma_max_name_is_greatest(names: Seq<String>, n: int)
    requires
        1 <= n <= names.len(),
    ensures
        0 <= max_name_index(names, n) < n,
        forall|j: int| 0 <= j < n ==> !lex_lt(names[max_name_index(names, n)]@, #[trigger] names[j]@),
    decreases n,
{
    if n == 1 {
        lemma_lex_lt_irreflexive(names[0]@);
    } else {
        lemma_max_name_is_greatest(names, n - 1);
        let b = max_name_index(names, n - 1);
        let last = names[n - 1]@;
        if lex_lt(last, names[b]@) {
            if lex_lt(names[b]@, last) {
                lemma_lex_lt_transitive(last, names[b]@, last);
                lemma_lex_lt_irreflexive(last);
            }
            assert forall|j: int| 0 <= j < n implies !lex_lt(names[b]@, #[trigger] names[j]@) by {
                if j < n - 1 {
                    assert(!lex_lt(names[b]@, names[j]@));
                }
            }
        } else {
            assert forall|j: int| 0 <= j < n implies !lex_lt(last, #[trigger] names[j]@) by {
                if j < n - 1 && lex_lt(last, names[j]@) {
                    lemma_lex_lt_total(last, names[b]@);
                    if lex_lt(names[b]@, last) {
                        lemma_lex_lt_transitive(names[b]@, last, names[j]@);
                    }
                }
                if j == n - 1 {
                    lemma_lex_lt_irreflexive(last);
                }
            }
        }
    }
}

pub fn max_name(names: &Vec<String>) -> (r: usize)
    requires
        names@.len() > 0,
    ensures
        r == max_name_index(names@, names@.len() as int),
        r < names@.len(),
{
    let mut best: usize = 0;
    let mut i: usize = 1;
    while i < names.len()
        invariant
            1 <= i <= names@.len(),
            best == max_name_index(names@, i as int),
            best < i,
        decreases names@.len() - i,
    {
        if !string_lt(&names[i], &names[best]) {
            best = i;
        }
        i = i + 1;
    }
    best
}

/// A declared attack that carries only a name.
pub open spec fn named_dummy(a: Action, name: Seq<char>) -> bool {
    a matches Action::DeclareAttack { attack } && attack@.name == name && attack@.damage == 0
        && attack@.attack_type == Type::Colorless && attack@.total_energy == 0 && attack@.cost_types.len() == 0
        && attack@.effect is None
}

pub fn named_attack(name: &String) -> (r: Action)
    ensures
        named_dummy(r, name@),
{
    let d = dummy_attack();
    Action::DeclareAttack { attack: Attack { name: name.clone(), ..d } }
}

pub open spec fn chosen_attack_name(a: Action, name: Seq<char>) -> bool {
    a matches Action::ChoosePokemonAttack { attack_name } && attack_name@ == name
}

/// The greatest name first, then every name once in a random order, each
/// wrapped by `wrap`.
pub open spec fn names_answer(names: Seq<String>, acts: Seq<Action>, pokemon_attack: bool) -> bool {
    let n = names.len() as int;
    if n == 0 {
        acts.len() == 0
    } else {
        &&& acts.len() == n + 1
        &&& (if pokemon_attack {
            chosen_attack_name(acts[0], names[max_name_index(names, n)]@)
        } else {
            named_dummy(acts[0], names[max_name_index(names, n)]@)
        })
        &&& exists|p: Seq<usize>| #![trigger is_order(p, n)]
            is_order(p, n) && forall|k: int| 0 <= k < n ==> (if pokemon_attack {
                chosen_attack_name(#[trigger] acts.skip(1)[k], names[p[k] as int]@)
            } else {
                named_dummy(acts.skip(1)[k], names[p[k] as int]@)
            })
    }
}

pub fn answer_names(names: &Vec<String>, pokemon_attack: bool, rng: &mut ChaCha8Rng) -> (r: Vec<Action>)
    ensures
        names_answer(names@, r@, pokemon_attack),
{
    let mut acts: Vec<Action> = Vec::new();
    if names.len() == 0 {
        return acts;
    }
    let best = max_name(names);
    if pokemon_attack {
        acts.push(Action::ChoosePokemonAttack { attack_name: names[best].clone() });
    } else {
        acts.push(named_attack(&names[best]));
    }
    let order = shuffled_order(names.len(), rng);
    let mut k: usize = 0;
    while k < order.len()
        invariant
            k <= order@.len(),
            order@.len() == names@.len(),
            forall|j: int| 0 <= j < order@.len() ==> #[trigger] order@[j] < names@.len(),
            acts@.len() == k + 1,
            pokemon_attack ==> chosen_attack_name(acts@[0], names@[max_name_index(names@, names@.len() as int)]@),
            !pokemon_attack ==> named_dummy(acts@[0], names@[max_name_index(names@, names@.len() as int)]@),
            forall|j: int| 0 <= j < k ==> (if pokemon_attack {
                chosen_attack_name(#[trigger] acts@.skip(1)[j], names@[order@[j] as int]@)
            } else {
                named_dummy(acts@.skip(1)[j], names@[order@[j] as int]@)
            }),
        decreases order@.len() - k,
    {
        let idx = order[k];
        let ghost old_acts = acts@;
        if pokemon_attack {
            acts.push(Action::ChoosePokemonAttack { attack_name: names[idx].clone() });
        } else {
            acts.push(named_attack(&names[idx]));
        }
        proof {
            assert forall|j: int| 0 <= j < k + 1 implies (if pokemon_attack {
                chosen_attack_name(#[trigger] acts@.skip(1)[j], names@[order@[j] as int]@)
            } else {
                named_dummy(acts@.skip(1)[j], names@[order@[j] as int]@)
            }) by {
                assert(acts@.skip(1)[j] == acts@[j + 1]);
                if j < k {
                    assert(old_acts.skip(1)[j] == old_acts[j + 1]);
                }
            }
        }
        k = k + 1;
    }
    acts
}

// ---------------------------------------------------------------- attacks

/// Each action of `tail` declares a copy of the attack `p` points at.
pub open spec fn declares_in_order(tail: Seq<Action>, attacks: Seq<Attack>, p: Seq<usize>) -> bool {
    tail.len() == p.len() && forall|k: int| 0 <= k < p.len() ==> (#[trigger] tail[k] matches Action::DeclareAttack { attack } && attack@ == attacks[p[k] as int]@)
}

/// Every attack once, as a declaration, in a random order, after `acts_head`.
pub fn push_shuffled_attacks(acts: &mut Vec<Action>, attacks: &Vec<Attack>, rng: &mut ChaCha8Rng)
    ensures
        final(acts)@.len() == old(acts)@.len() + attacks@.len(),
        final(acts)@.take(old(acts)@.len() as int) == old(acts)@,
        exists|p: Seq<usize>| #![trigger is_order(p, attacks@.len() as int)]
            is_order(p, attacks@.len() as int) && declares_in_order(final(acts)@.skip(old(acts)@.len() as int), attacks@, p),
{
    let ghost start = acts@;
    let order = shuffled_order(attacks.len(), rng);
    let mut k: usize = 0;
    while k < order.len()
        invariant
            k <= order@.len(),
            order@.len() == attacks@.len(),
            is_order(order@, attacks@.len() as int),
            forall|j: int| 0 <= j < order@.len() ==> #[trigger] order@[j] < attacks@.len(),
            acts@.len() == start.len() + k,
            acts@.take(start.len() as int) == start,
            declares_in_order(acts@.skip(start.len() as int), attacks@, order@.take(k as int)),
        decreases order@.len() - k,
    {
        let idx = order[k];
        let ghost before = acts@;
        acts.push(Action::DeclareAttack { attack: copy_attack(&attacks[idx]) });
        proof {
            assert(acts@.take(start.len() as int) =~= before.take(start.len() as int));
            let tail = acts@.skip(start.len() as int);
            let p = order@.take(k + 1);
            assert forall|j: int| 0 <= j < p.len() implies (#[trigger] tail[j] matches Action::DeclareAttack { attack } && attack@ == attacks@[p[j] as int]@) by {
                assert(tail[j] == acts@[start.len() + j]);
                if j < k {
                    assert(before.skip(start.len() as int)[j] == before[start.len() + j]);
                    assert(order@.take(k as int)[j] == p[j]);
                }
            }
        }
        k = k + 1;
    }
    assert(order@.take(k as int) =~= order@);
}

// ---------------------------------------------------------------- ids

/// The card id a `ChooseNewActive` action names.
pub open spec fn new_active_id(a: Action) -> CardInstanceId {
    match a {
        Action::ChooseNewActive { card_id } => card_id,
        _ => 0,
    }
}

/// Every candidate once as a `ChooseNewActive` action, in a random order.
pub open spec fn new_active_tail(tail: Seq<Action>, cands: Seq<CardInstanceId>) -> bool {
    &&& tail.len() == cands.len()
    &&& forall|k: int| 0 <= k < tail.len() ==> (#[trigger] tail[k]) is ChooseNewActive
    &&& Seq::new(tail.len(), |k: int| new_active_id(tail[k])).to_multiset() == cands.to_multiset()
}

pub fn push_shuffled_new_actives(acts: &mut Vec<Action>, cands: &Vec<CardInstanceId>, rng: &mut ChaCha8Rng)
    ensures
        final(acts)@.len() == old(acts)@.len() + cands@.len(),
        final(acts)@.take(old(acts)@.len() as int) == old(acts)@,
        new_active_tail(final(acts)@.skip(old(acts)@.len() as int), cands@),
{
    let ghost start = acts@;
    let ids = shuffled_ids(cands, rng);
    let mut k: usize = 0;
    while k < ids.len()
        invariant
            k <= ids@.len(),
            acts@.len() == start.len() + k,
            acts@.take(start.len() as int) == start,
            forall|j: int| 0 <= j < k ==> (#[trigger] acts@.skip(start.len() as int)[j]) is ChooseNewActive,
            Seq::new(k as nat, |j: int| new_active_id(acts@.skip(start.len() as int)[j])) == ids@.take(k as int),
        decreases ids@.len() - k,
    {
        let ghost before = acts@;
        acts.push(Action::ChooseNewActive { card_id: ids[k] });
        proof {
            assert(acts@.take(start.len() as int) =~= before.take(start.len() as int));
            let tail = acts@.skip(start.len() as int);
            assert forall|j: int| 0 <= j < k + 1 implies (#[trigger] tail[j]) is ChooseNewActive by {
                assert(tail[j] == acts@[start.len() + j]);
                if j < k {
                    assert(before.skip(start.len() as int)[j] == before[start.len() + j]);
                }
            }
            assert forall|j: int| 0 <= j < k + 1 implies new_active_id(tail[j]) == ids@.take(k + 1)[j] by {
                assert(tail[j] == acts@[start.len() + j]);
                if j < k {
                    assert(before.skip(start.len() as int)[j] == before[start.len() + j]);
                    assert(new_active_id(before.skip(start.len() as int)[j]) == Seq::new(k as nat, |j: int| new_active_id(before.skip(start.len() as int)[j]))[j]);
                }
            }
            assert(Seq::new((k + 1) as nat, |j: int| new_active_id(tail[j])) =~= ids@.take(k + 1));
        }
        k = k + 1;
    }
    assert(ids@.take(k as int) =~= ids@);
}

/// The condition a `ChooseSpecialCondition` action names.
pub open spec fn condition_of(a: Action) -> SpecialCondition {
    match a {
        Action::ChooseSpecialCondition { condition } => condition,
        _ => SpecialCondition::Asleep,
    }
}

/// The first condition, then every condition once in a random order.
pub open spec fn conditions_answer(options: Seq<SpecialCondition>, acts: Seq<Action>) -> bool {
    if options.len() == 0 {
        acts.len() == 0
    } else {
        let tail = acts.skip(1);
        &&& acts.len() == options.len() + 1
        &&& acts[0] == (Action::ChooseSpecialCondition { condition: options[0] })
        &&& forall|k: int| 0 <= k < tail.len() ==> (#[trigger] tail[k]) is ChooseSpecialCondition
        &&& Seq::new(tail.len(), |k: int| condition_of(tail[k])).to_multiset() == options.to_multiset()
    }
}

pub fn answer_conditions(options: &Vec<SpecialCondition>, rng: &mut ChaCha8Rng) -> (r: Vec<Action>)
    ensures
        conditions_answer(options@, r@),
{
    let mut acts: Vec<Action> = Vec::new();
    if options.len() == 0 {
        return acts;
    }
    acts.push(Action::ChooseSpecialCondition { condition: options[0] });
    let mut choices = copy_vec(options);
    crate::rng::shuffle(&mut choices, rng);
    let mut k: usize = 0;
    while k < choices.len()
        invariant
            k <= choices@.len(),
            acts@.len() == k + 1,
            acts@[0] == (Action::ChooseSpecialCondition { condition: options@[0] }),
            forall|j: int| 0 <= j < k ==> (#[trigger] acts@.skip(1)[j]) is ChooseSpecialCondition,
            Seq::new(k as nat, |j: int| condition_of(acts@.skip(1)[j])) == choices@.take(k as int),
        decreases choices@.len() - k,
    {
        let ghost before = acts@;
        acts.push(Action::ChooseSpecialCondition { condition: choices[k] });
        proof {
            let tail = acts@.skip(1);
            assert forall|j: int| 0 <= j < k + 1 implies (#[trigger] tail[j]) is ChooseSpecialCondition by {
                assert(tail[j] == acts@[1 + j]);
                if j < k {
                    assert(before.skip(1)[j] == before[1 + j]);
                }
            }
            assert forall|j: int| 0 <= j < k + 1 implies condition_of(tail[j]) == choices@.take(k + 1)[j] by {
                assert(tail[j] == acts@[1 + j]);
                if j < k {
                    assert(before.skip(1)[j] == before[1 + j]);
                    assert(condition_of(before.skip(1)[j]) == Seq::new(k as nat, |j: int| condition_of(before.skip(1)[j]))[j]);
                }
            }
            assert(Seq::new((k + 1) as nat, |j: int| condition_of(tail[j])) =~= choices@.take(k + 1));
        }
        k = k + 1;
    }
    assert(choices@.take(k as int) =~= choices@);
    acts
}

/// The answer to a prize-card prompt: `min(min, max)` random options.
pub open spec fn prize_answer(options: Seq<CardInstanceId>, min: usize, max: usize, acts: Seq<Action>) -> bool {
    &&& acts.len() == 1
    &&& acts[0] matches Action::ChoosePrizeCards { card_ids } && picks_from(
        card_ids@,
        options,
        min_int(min_int(min as int, max as int), options.len() as int),
    )
}

pub fn answer_prizes(options: &Vec<CardInstanceId>, min: usize, max: usize, rng: &mut ChaCha8Rng) -> (r: Vec<Action>)
    ensures
        prize_answer(options@, min, max, r@),
{
    let a = if min < max { min } else { max };
    let take = if a < options.len() { a } else { options.len() };
    let picked = choose_k(options, take, rng);
    let mut acts: Vec<Action> = Vec::new();
    acts.push(Action::ChoosePrizeCards { card_ids: picked });
    acts
}

/// The answer to a reorder prompt: the options in a random order.
pub open spec fn reorder_answer(options: Seq<CardInstanceId>, acts: Seq<Action>) -> bool {
    &&& acts.len() == 1
    &&& acts[0] matches Action::ReorderDeckTop { card_ids } && card_ids@.len() == options.len()
        && card_ids@.to_multiset() == options.to_multiset()
}

pub fn answer_reorder(options: &Vec<CardInstanceId>, rng: &mut ChaCha8Rng) -> (r: Vec<Action>)
    ensures
        reorder_answer(options@, r@),
{
    let ids = shuffled_ids(options, rng);
    let mut acts: Vec<Action> = Vec::new();
    acts.push(Action::ReorderDeckTop { card_ids: ids });
    acts
}

pub fn end_turn() -> (r: Vec<Action>)
    ensures
        end_turn_only(r@),
{
    let mut acts: Vec<Action> = Vec::new();
    acts.push(Action::EndTurn);
    acts
}

/// The energy attached to the player's Pokémon with that id.
pub open spec fn attached_ids(view: GameView, pokemon_id: CardInstanceId) -> Seq<CardInstanceId> {
    match my_pokemon(view, pokemon_id) {
        Some(p) => ids_of_cards(p.attached_energy@),
        None => seq![],
    }
}

/// Attached-energy prompt: with no energy there, an empty answer when none
/// is demanded, else cancel; otherwise, when none is demanded, possibly an
/// empty answer (by chance), else `max(count, demanded)` random energy.
pub open spec fn attached_energy_ok(view: GameView, player: PlayerId, pokemon_id: CardInstanceId, count: usize, min: Option<usize>, acts: Seq<Action>) -> bool {
    let rmin = opt_or(min, count);
    let e = attached_ids(view, pokemon_id);
    if player != view.player_id {
        end_turn_only(acts)
    } else if e.len() == 0 {
        if rmin == 0 {
            acts.len() == 1 && (acts[0] matches Action::ChooseAttachedEnergy { energy_ids } && energy_ids@.len() == 0)
        } else {
            acts == seq![Action::CancelPrompt]
        }
    } else {
        &&& acts.len() == 1
        &&& acts[0] matches Action::ChooseAttachedEnergy { energy_ids } && ((rmin == 0 && energy_ids@.len() == 0)
            || picks_from(energy_ids@, e, min_int(if count >= rmin { count as int } else { rmin }, e.len() as int)))
    }
}

pub fn respond_attached_energy(
    view: &GameView,
    player: PlayerId,
    pokemon_id: CardInstanceId,
    count: usize,
    min: Option<usize>,
    numerator: u32,
    rng: &mut ChaCha8Rng,
) -> (r: Vec<Action>)
    requires
        numerator <= 100,
    ensures
        attached_energy_ok(*view, player, pokemon_id, count, min, r@),
        player != view.player_id ==> *final(rng) == *old(rng),
{
    if player != view.player_id {
        return end_turn();
    }
    let required_min = match min {
        Some(v) => v,
        None => count,
    };
    let mut energies: Vec<CardInstanceId> = match find_my_pokemon(view, pokemon_id) {
        Some(p) => card_ids(&p.attached_energy),
        None => Vec::new(),
    };
    let ghost e = attached_ids(*view, pokemon_id);
    assert(energies@ == e);
    crate::rng::shuffle(&mut energies, rng);
    let mut acts: Vec<Action> = Vec::new();
    if energies.len() == 0 {
        if required_min == 0 {
            acts.push(Action::ChooseAttachedEnergy { energy_ids: Vec::new() });
        } else {
            acts.push(Action::CancelPrompt);
            assert(acts@ =~= seq![Action::CancelPrompt]);
        }
        return acts;
    }
    if required_min == 0 && gen_ratio(rng, numerator, 100) {
        acts.push(Action::ChooseAttachedEnergy { energy_ids: Vec::new() });
    } else {
        let want = if count >= required_min { count } else { required_min };
        let take = if want < energies.len() { want } else { energies.len() };
        let ghost shuffled = energies@;
        energies.truncate(take);
        proof {
            lemma_take_subset(shuffled, take as int);
        }
        acts.push(Action::ChooseAttachedEnergy { energy_ids: energies });
    }
    acts
}

} // verus!
