//! A heuristic player that evolves and plays trainers unless it can knock
//! out the defender right away, attaches energy where its attacks need it,
//! retreats a badly hurt active Pokémon, and answers every prompt.
use vstd::prelude::*;
use crate::model::{Action, Attack, CardInstance, CardInstanceId, GameView, PokemonView, Prompt, copy_ids, dummy_attack};
use crate::scoring::{
    remaining, remaining_hp, my_pokemon, opponent_pokemon, is_active_id, find_my_pokemon,
    find_opponent_pokemon, is_my_active, matchup, matchup_score_against_active, energy_on,
    attached_energy_count_on, choose_k, choose_id, picks_from, view_bounded, energy_bounded,
    lemma_my_pokemon_bounded, contains_id, opt_ref, expected_damage, expected_damage_vs,
    best_attack_for_view, best_attack_index, bench_ids, ids_of_pokemon,
};
use crate::sort::{key_le, Keyed, keyed_by, lemma_keyed_by_nonempty, lemma_keyed_by_push, sort_keyed, sort_by_key, take_ids, ids_of, top_keyed, top_ids};
use crate::rng::{seeded_rng, seeded_generator, gen_ratio, gen_range_i32, choose_one};
use crate::energy::{first_card, find_card};
use crate::scoring::{ids_of_cards, keep_allowed, filter_allowed, card_ids, shuffled_ids, lemma_take_subset};
use crate::ai::respond::{
    prompt_for_other,
    clamp, min_int, opt_or, end_turn_only, end_turn, names_answer, answer_names, declares_in_order,
    push_shuffled_attacks, new_active_tail, push_shuffled_new_actives, conditions_answer,
    answer_conditions, prize_answer, answer_prizes, reorder_answer, answer_reorder,
    attached_energy_ok, respond_attached_energy,
};
use crate::model::{PlayerId, SpecialCondition};
use crate::scoring::is_order;
use crate::energy::{str_starts_with, energy_choice_ok, opt_attack_view, choose_energy_for_target};
use crate::model::AttackValue;
use rand_chacha::ChaCha8Rng;

verus! {

broadcast use vstd::seq_lib::group_seq_properties;

/// Attack value: each energy of cost weighs 20, a Pokémon-ex defender adds 150.
pub open spec fn cost_weight() -> int { 20 }

pub open spec fn ex_bonus() -> int { 150 }

pub struct CandidateAi {
    rng: ChaCha8Rng,
}

impl CandidateAi {
    /// The player's generator.
    pub closed spec fn generator(&self) -> ChaCha8Rng {
        self.rng
    }

    /// A player whose random choices follow the ChaCha8 stream of `seed`.
    pub fn new(seed: u64) -> (r: CandidateAi)
        ensures
            r.generator() == seeded_generator(seed),
    {
        CandidateAi { rng: seeded_rng(seed) }
    }
}

// ---------------------------------------------------------------- health

/// The active Pokémon has HP and less than `num / den` of it left.
pub open spec fn health_below(view: GameView, num: int, den: int) -> bool {
    view.my_active matches Some(a) && a.hp != 0 && remaining(a) * den < num * a.hp
}

pub fn active_health_below(view: &GameView, num: i64, den: i64) -> (r: bool)
    requires
        0 <= num <= 100,
        0 < den <= 100,
    ensures
        r == health_below(*view, num as int, den as int),
{
    match &view.my_active {
        Some(a) => {
            if a.hp == 0 {
                false
            } else {
                let rem = remaining_hp(a) as i64;
                let hp = a.hp as i64;
                assert(0 <= rem * den <= 65535 * 100 && 0 <= num * hp <= 100 * 65535) by (nonlinear_arith)
                    requires
                        0 <= rem <= 65535,
                        0 < den <= 100,
                        0 <= num <= 100,
                        0 <= hp <= 65535,
                ;
                rem * den < num * hp
            }
        },
        None => false,
    }
}

/// The active Pokémon suffers a special condition or has less than 45% of its HP left.
pub open spec fn active_unhealthy(view: GameView) -> bool {
    (view.my_active matches Some(a) && a.special_conditions@.len() > 0) || health_below(view, 45, 100)
}

// ---------------------------------------------------------------- energy target

pub open spec fn capped3(e: int) -> int {
    if e < 3 { e } else { 3 }
}

/// How much `target` (the player's Pokémon `p`) wants the next energy card.
pub open spec fn attach_score(view: GameView, target: CardInstanceId, p: PokemonView, can_attack: bool, unhealthy: bool) -> int {
    let e = p.attached_energy@.len() as int;
    matchup(p, view.opponent_active) + (if is_active_id(view, target) {
        (if can_attack { 25int } else { 80 }) - (if unhealthy { 30int } else { 0 }) + (if !can_attack { (3 - capped3(e)) * 6 } else { 0 })
    } else {
        35 + (if can_attack {
            if unhealthy { e * 4 } else { (3 - capped3(e)) * 4 }
        } else if unhealthy {
            e * 3
        } else {
            -e * 2
        })
    }) - (if p.special_conditions@.len() > 0 { 10int } else { 0 })
}

pub open spec fn attach_key(view: GameView, can_attack: bool, unhealthy: bool) -> spec_fn(CardInstanceId) -> Option<(i64, i64)> {
    |id: CardInstanceId| match my_pokemon(view, id) {
        Some(p) => Some(((-attach_score(view, id, p, can_attack, unhealthy)) as i64, 0i64)),
        None => None,
    }
}

/// The energy target: `None` without targets; a random target among all of
/// them when none is one of the player's Pokémon; otherwise a random one among
/// those with the best score.
pub open spec fn attach_target_ok(view: GameView, targets: Seq<CardInstanceId>, can_attack: bool, r: Option<CardInstanceId>) -> bool {
    let keys = keyed_by(targets, attach_key(view, can_attack, active_unhealthy(view)));
    if targets.len() == 0 {
        r is None
    } else if keys.len() == 0 {
        r matches Some(x) && targets.contains(x)
    } else {
        r matches Some(x) && top_keyed(keys).contains(x)
    }
}

fn attach_target_score(view: &GameView, target: CardInstanceId, p: &PokemonView, can_attack: bool, unhealthy: bool) -> (r: i64)
    requires
        energy_bounded(*p),
    ensures
        r == attach_score(*view, target, *p, can_attack, unhealthy),
{
    let energy = p.attached_energy.len() as i64;
    let capped = if energy < 3 { energy } else { 3 };
    let mut score = matchup_score_against_active(p, view.opponent_active.as_ref()) as i64;
    if is_my_active(view, target) {
        score = score + if can_attack { 25 } else { 80 };
        if unhealthy {
            score = score - 30;
        }
        if !can_attack {
            score = score + (3 - capped) * 6;
        }
    } else {
        score = score + 35;
        if can_attack {
            if unhealthy {
                score = score + energy * 4;
            } else {
                score = score + (3 - capped) * 4;
            }
        } else if unhealthy {
            score = score + energy * 3;
        } else {
            score = score - energy * 2;
        }
    }
    if p.special_conditions.len() > 0 {
        score = score - 10;
    }
    score
}

fn choose_energy_attach_target(
    view: &GameView,
    attach_targets: &Vec<CardInstanceId>,
    can_attack_now: bool,
    rng: &mut ChaCha8Rng,
) -> (r: Option<CardInstanceId>)
    requires
        view_bounded(*view),
    ensures
        attach_target_ok(*view, attach_targets@, can_attack_now, r),
{
    if attach_targets.len() == 0 {
        return None;
    }
    let unhealthy = (match &view.my_active {
        Some(a) => a.special_conditions.len() > 0,
        None => false,
    }) || active_health_below(view, 45, 100);
    let ghost f = attach_key(*view, can_attack_now, active_unhealthy(*view));
    let mut scored: Vec<Keyed> = Vec::new();
    let mut i: usize = 0;
    while i < attach_targets.len()
        invariant
            i <= attach_targets@.len(),
            view_bounded(*view),
            unhealthy == active_unhealthy(*view),
            f == attach_key(*view, can_attack_now, active_unhealthy(*view)),
            scored@ == keyed_by(attach_targets@.take(i as int), f),
        decreases attach_targets@.len() - i,
    {
        let target_id = attach_targets[i];
        proof {
            assert(attach_targets@.take(i + 1) =~= attach_targets@.take(i as int).push(target_id));
            lemma_keyed_by_push(attach_targets@.take(i as int), f, target_id);
            lemma_my_pokemon_bounded(*view, target_id);
        }
        match find_my_pokemon(view, target_id) {
            Some(p) => {
                let score = attach_target_score(view, target_id, p, can_attack_now, unhealthy);
                scored.push((-(score as i64), 0, target_id));
            },
            None => {},
        }
        i = i + 1;
    }
    assert(attach_targets@.take(i as int) =~= attach_targets@);
    if scored.len() == 0 {
        return choose_id(attach_targets, rng);
    }
    let sorted = sort_by_key(&scored);
    proof {
        crate::sort::lemma_sort_keyed_multiset(scored@);
    }
    let best_ids = top_ids(&sorted);
    proof {
        let g = |k: Keyed| k.0 == sorted@[0].0;
        assert(sorted@.contains(sorted@[0]));
        assert(sorted@.filter(g).contains(sorted@[0]));
        let j = choose|j: int| 0 <= j < sorted@.filter(g).len() && sorted@.filter(g)[j] == sorted@[0];
        assert(best_ids@[j] == sorted@[0].2);
    }
    choose_id(&best_ids, rng)
}

// ---------------------------------------------------------------- new active

/// Rank of a candidate for the new active Pokémon: 25 per attached energy,
/// its HP left, 10 per point of matchup; ties go to more HP left.
pub open spec fn new_active_key(view: GameView) -> spec_fn(CardInstanceId) -> Option<(i64, i64)> {
    |id: CardInstanceId| {
        let rem = match my_pokemon(view, id) {
            Some(p) => remaining(p),
            None => 0,
        };
        let m = match my_pokemon(view, id) {
            Some(p) => matchup(p, view.opponent_active),
            None => 0,
        };
        Some(((-(energy_on(view, id) * 25 + rem + m * 10)) as i64, (-rem) as i64))
    }
}

/// The candidates for the new active Pokémon: the offered options, or the
/// bench when none are offered.
pub open spec fn new_active_candidates(view: GameView, options: Seq<CardInstanceId>) -> Seq<CardInstanceId> {
    if options.len() > 0 { options } else { ids_of_pokemon(view.my_bench@) }
}

pub open spec fn best_new_active(view: GameView, options: Seq<CardInstanceId>) -> Option<CardInstanceId> {
    let c = new_active_candidates(view, options);
    if c.len() == 0 {
        None
    } else {
        Some(sort_keyed(keyed_by(c, new_active_key(view)))[0].2)
    }
}

/// How strong a Pokémon of the player is as a new active Pokémon: 25 per
/// attached energy, its HP left, and 10 per point of its matchup against the
/// opponent's active Pokémon (0 for ids that are not the player's).
pub open spec fn promotion_strength(view: GameView, id: CardInstanceId) -> int {
    match my_pokemon(view, id) {
        Some(p) => 25 * p.attached_energy@.len() + remaining(p) + 10 * matchup(p, view.opponent_active),
        None => 0,
    }
}

/// After a knockout the player promotes its strongest candidate: the first
/// answer names a candidate, and no candidate has a greater
/// `promotion_strength`.
pub proof fn lemma_new_active_is_strongest(view: GameView, prompt: Prompt, acts: Seq<Action>)
    requires
        view_bounded(view),
        prompt_response_ok(view, prompt, acts),
        prompt matches Prompt::ChooseNewActive { player, options } && player == view.player_id
            && new_active_candidates(view, options@).len() > 0,
    ensures
        ({
            let c = new_active_candidates(view, prompt->ChooseNewActive_options@);
            &&& acts[0] matches Action::ChooseNewActive { card_id } && c.contains(card_id)
            &&& forall|k: int| 0 <= k < c.len() ==> promotion_strength(view, #[trigger] c[k]) <= promotion_strength(view, acts[0]->ChooseNewActive_card_id)
        }),
{
    let c = new_active_candidates(view, prompt->ChooseNewActive_options@);
    let f = new_active_key(view);
    crate::sort::lemma_sorted_entries(c, f);
    let s = sort_keyed(keyed_by(c, f));
    assert(f(c[0]) is Some);
    assert(s.len() > 0);
    let chosen = s[0].2;
    lemma_my_pokemon_bounded(view, chosen);
    assert forall|k: int| 0 <= k < c.len() implies promotion_strength(view, #[trigger] c[k]) <= promotion_strength(view, chosen) by {
        let d = c[k];
        lemma_my_pokemon_bounded(view, d);
        assert(f(c[k]) is Some);
        let e = (f(d).unwrap().0, f(d).unwrap().1, d);
        assert(s.contains(e));
        let j = choose|j: int| 0 <= j < s.len() && s[j] == e;
        if j > 0 {
            assert(key_le(s[0], s[j]));
        }
        assert(f(chosen) == Some((s[0].0, s[0].1)));
    }
}

fn choose_new_active_best(view: &GameView, options: &Vec<CardInstanceId>) -> (r: Option<CardInstanceId>)
    requires
        view_bounded(*view),
    ensures
        r == best_new_active(*view, options@),
{
    let candidates: Vec<CardInstanceId> = if options.len() > 0 { copy_ids(options) } else { bench_ids(&view.my_bench) };
    if candidates.len() == 0 {
        return None;
    }
    let ghost f = new_active_key(*view);
    let mut scored: Vec<Keyed> = Vec::new();
    let mut i: usize = 0;
    while i < candidates.len()
        invariant
            i <= candidates@.len(),
            view_bounded(*view),
            f == new_active_key(*view),
            scored@ == keyed_by(candidates@.take(i as int), f),
        decreases candidates@.len() - i,
    {
        let pid = candidates[i];
        proof {
            assert(candidates@.take(i + 1) =~= candidates@.take(i as int).push(pid));
            lemma_keyed_by_push(candidates@.take(i as int), f, pid);
            lemma_my_pokemon_bounded(*view, pid);
        }
        let energy = attached_energy_count_on(view, pid);
        let rem: i32 = match find_my_pokemon(view, pid) {
            Some(p) => remaining_hp(p),
            None => 0,
        };
        let m: i32 = match find_my_pokemon(view, pid) {
            Some(p) => matchup_score_against_active(p, view.opponent_active.as_ref()),
            None => 0,
        };
        let score = (energy as i64) * 25 + rem as i64 + (m as i64) * 10;
        scored.push((-(score as i64), -(rem as i64), pid));
        i = i + 1;
    }
    assert(candidates@.take(i as int) =~= candidates@);
    let sorted = sort_by_key(&scored);
    proof {
        crate::sort::lemma_sort_keyed_multiset(scored@);
    }
    Some(sorted[0].2)
}

// ---------------------------------------------------------------- bench basics

/// Whether to play a basic Pokémon now: always with fewer than 2 benched,
/// without drawing from the generator; otherwise one draw, true with chance
/// 1/2 with fewer than 4 benched, else with chance 1/5 (which outcome comes
/// is the generator's and is not stated).
fn should_play_basic_now(view: &GameView, rng: &mut ChaCha8Rng) -> (r: bool)
    ensures
        view.my_bench@.len() < 2 ==> r && *final(rng) == *old(rng),
{
    let bench_n = view.my_bench.len();
    if bench_n < 2 {
        return true;
    }
    if bench_n < 4 {
        return gen_ratio(rng, 1, 2);
    }
    gen_ratio(rng, 1, 5)
}

// ---------------------------------------------------------------- hand cards

/// How readily a hand card is given up: cards that are not playable basics
/// or playable energy go first; with 3 or more benched, basics go sooner.
pub open spec fn disposable_base(view: GameView, id: CardInstanceId) -> int {
    let basic = view.action_hints.playable_basic_ids@.contains(id);
    let energy = view.action_hints.playable_energy_ids@.contains(id);
    (if !basic { 10int } else { -10 }) + (if !energy { 6int } else { -6 }) + (if view.my_bench@.len() >= 3 && basic { 4int } else { 0 })
}

pub open spec fn disposable_keys(view: GameView, pool: Seq<CardInstanceId>, jitter: Seq<i32>) -> Seq<Keyed> {
    Seq::new(pool.len(), |i: int| ((-(disposable_base(view, pool[i]) + jitter[i])) as i64, 0i64, pool[i]))
}

pub open spec fn take_n(len: int, n: int) -> int {
    if n <= len { n } else { len }
}

/// The `take` most disposable cards of `pool`, each card's score raised by
/// its entry of `jitter`; equal scores keep the pool's order.
pub fn rank_disposable(view: &GameView, pool: &Vec<CardInstanceId>, jitter: &Vec<i32>, take: usize) -> (r: Vec<CardInstanceId>)
    requires
        jitter@.len() == pool@.len(),
        forall|i: int| 0 <= i < jitter@.len() ==> 0 <= #[trigger] jitter@[i] < 3,
    ensures
        r@ == ids_of(sort_keyed(disposable_keys(*view, pool@, jitter@))).take(take_n(pool@.len() as int, take as int)),
{
    let hints = &view.action_hints;
    let mut scored: Vec<Keyed> = Vec::new();
    let mut i: usize = 0;
    while i < pool.len()
        invariant
            i <= pool@.len(),
            jitter@.len() == pool@.len(),
            hints == &view.action_hints,
            forall|k: int| 0 <= k < jitter@.len() ==> 0 <= #[trigger] jitter@[k] < 3,
            scored@ == disposable_keys(*view, pool@, jitter@).take(i as int),
        decreases pool@.len() - i,
    {
        let id = pool[i];
        let basic = contains_id(&hints.playable_basic_ids, id);
        let energy = contains_id(&hints.playable_energy_ids, id);
        let mut score: i32 = 0;
        if !basic {
            score = score + 10;
        } else {
            score = score - 10;
        }
        if !energy {
            score = score + 6;
        } else {
            score = score - 6;
        }
        if view.my_bench.len() >= 3 && basic {
            score = score + 4;
        }
        score = score + jitter[i];
        scored.push((-(score as i64), 0, id));
        i = i + 1;
        assert(scored@ =~= disposable_keys(*view, pool@, jitter@).take(i as int));
    }
    assert(disposable_keys(*view, pool@, jitter@).take(i as int) =~= disposable_keys(*view, pool@, jitter@));
    let sorted = sort_by_key(&scored);
    proof {
        crate::sort::lemma_sort_keyed_multiset(scored@);
    }
    take_ids(&sorted, take)
}

/// Draws a jitter in `0..3` for each card of `pool` and ranks the pool with it.
fn pick_hand_cards_disposable(view: &GameView, pool: &Vec<CardInstanceId>, take: usize, rng: &mut ChaCha8Rng) -> (r: Vec<CardInstanceId>)
    ensures
        exists|jitter: Seq<i32>| #![trigger disposable_keys(*view, pool@, jitter)]
            jitter.len() == pool@.len()
            && (forall|i: int| 0 <= i < jitter.len() ==> 0 <= #[trigger] jitter[i] < 3)
            && r@ == ids_of(sort_keyed(disposable_keys(*view, pool@, jitter))).take(take_n(pool@.len() as int, take as int)),
{
    let mut jitter: Vec<i32> = Vec::new();
    let mut i: usize = 0;
    while i < pool.len()
        invariant
            i <= pool@.len(),
            jitter@.len() == i,
            forall|k: int| 0 <= k < jitter@.len() ==> 0 <= #[trigger] jitter@[k] < 3,
        decreases pool@.len() - i,
    {
        let j = gen_range_i32(rng, 0, 3);
        jitter.push(j);
        i = i + 1;
    }
    rank_disposable(view, pool, &jitter, take)
}

// ---------------------------------------------------------------- targets

/// Opponent's Pokémon ranked by HP left, Pokémon-ex first among equals.
pub open spec fn low_hp_key(view: GameView) -> spec_fn(CardInstanceId) -> Option<(i64, i64)> {
    |id: CardInstanceId| match opponent_pokemon(view, id) {
        Some(p) => Some((remaining(p) as i64, (if p.is_ex { -5int } else { 0 }) as i64)),
        None => None,
    }
}

/// The opponent's Pokémon with the least HP left among the options; when
/// no option is an opponent's Pokémon, `take` random options.
pub open spec fn low_hp_targets_ok(view: GameView, options: Seq<CardInstanceId>, take: int, r: Seq<CardInstanceId>) -> bool {
    let keys = keyed_by(options, low_hp_key(view));
    if keys.len() == 0 {
        picks_from(r, options, take_n(options.len() as int, take))
    } else {
        r == ids_of(sort_keyed(keys)).take(take_n(keys.len() as int, take))
    }
}

fn pick_opponent_targets_low_hp(view: &GameView, options: &Vec<CardInstanceId>, take: usize, rng: &mut ChaCha8Rng) -> (r: Vec<CardInstanceId>)
    requires
        view_bounded(*view),
    ensures
        low_hp_targets_ok(*view, options@, take as int, r@),
        keyed_by(options@, low_hp_key(*view)).len() > 0 ==> *final(rng) == *old(rng),
{
    let ghost f = low_hp_key(*view);
    let mut scored: Vec<Keyed> = Vec::new();
    let mut i: usize = 0;
    while i < options.len()
        invariant
            i <= options@.len(),
            f == low_hp_key(*view),
            scored@ == keyed_by(options@.take(i as int), f),
        decreases options@.len() - i,
    {
        let pid = options[i];
        proof {
            assert(options@.take(i + 1) =~= options@.take(i as int).push(pid));
            lemma_keyed_by_push(options@.take(i as int), f, pid);
        }
        match find_opponent_pokemon(view, pid) {
            Some(p) => {
                let rem = remaining_hp(p);
                let ex_bonus: i64 = if p.is_ex { -5 } else { 0 };
                scored.push((rem as i64, ex_bonus, pid));
            },
            None => {},
        }
        i = i + 1;
    }
    assert(options@.take(i as int) =~= options@);
    if scored.len() == 0 {
        return choose_k(options, take, rng);
    }
    let sorted = sort_by_key(&scored);
    proof {
        crate::sort::lemma_sort_keyed_multiset(scored@);
    }
    take_ids(&sorted, take)
}

/// The player's own Pokémon ranked by fewest attached energy, then most HP left.
pub open spec fn low_energy_key(view: GameView) -> spec_fn(CardInstanceId) -> Option<(i64, i64)> {
    |id: CardInstanceId| {
        let rem = match my_pokemon(view, id) {
            Some(p) => remaining(p),
            None => 0,
        };
        Some((energy_on(view, id) as i64, (-rem) as i64))
    }
}

fn pick_own_targets_low_energy(view: &GameView, options: &Vec<CardInstanceId>, take: usize) -> (r: Vec<CardInstanceId>)
    requires
        view_bounded(*view),
    ensures
        r@ == ids_of(sort_keyed(keyed_by(options@, low_energy_key(*view)))).take(take_n(options@.len() as int, take as int)),
{
    let ghost f = low_energy_key(*view);
    let mut scored: Vec<Keyed> = Vec::new();
    let mut i: usize = 0;
    while i < options.len()
        invariant
            i <= options@.len(),
            view_bounded(*view),
            f == low_energy_key(*view),
            scored@ == keyed_by(options@.take(i as int), f),
            scored@.len() == i,
        decreases options@.len() - i,
    {
        let pid = options[i];
        proof {
            assert(options@.take(i + 1) =~= options@.take(i as int).push(pid));
            lemma_keyed_by_push(options@.take(i as int), f, pid);
            lemma_my_pokemon_bounded(*view, pid);
        }
        let energy = attached_energy_count_on(view, pid);
        let rem: i32 = match find_my_pokemon(view, pid) {
            Some(p) => remaining_hp(p),
            None => 0,
        };
        scored.push((energy as i64, -(rem as i64), pid));
        i = i + 1;
    }
    assert(options@.take(i as int) =~= options@);
    let sorted = sort_by_key(&scored);
    proof {
        crate::sort::lemma_sort_keyed_multiset(scored@);
    }
    take_ids(&sorted, take)
}

// ---------------------------------------------------------------- evolution

/// The evolution targets the hints list for an evolution card.
pub open spec fn lookup_targets(m: Seq<(CardInstanceId, Vec<CardInstanceId>)>, id: CardInstanceId) -> Option<Seq<CardInstanceId>>
    decreases m.len(),
{
    if m.len() == 0 {
        None
    } else if m[0].0 == id {
        Some(m[0].1@)
    } else {
        lookup_targets(m.drop_first(), id)
    }
}

proof fn lemma_lookup_targets(m: Seq<(CardInstanceId, Vec<CardInstanceId>)>, id: CardInstanceId, i: int)
    requires
        0 <= i <= m.len(),
        forall|k: int| 0 <= k < i ==> (#[trigger] m[k]).0 != id,
    ensures
        i == m.len() ==> lookup_targets(m, id) is None,
        i < m.len() && m[i].0 == id ==> lookup_targets(m, id) == Some(m[i].1@),
    decreases i,
{
    if i > 0 {
        assert forall|k: int| 0 <= k < i - 1 implies (#[trigger] m.drop_first()[k]).0 != id by {
            assert(m.drop_first()[k] == m[k + 1]);
        }
        lemma_lookup_targets(m.drop_first(), id, i - 1);
    }
}

pub fn find_targets<'a>(m: &'a Vec<(CardInstanceId, Vec<CardInstanceId>)>, id: CardInstanceId) -> (r: Option<&'a Vec<CardInstanceId>>)
    ensures
        r is Some == lookup_targets(m@, id) is Some,
        r matches Some(v) ==> v@ == lookup_targets(m@, id).unwrap(),
{
    let mut i: usize = 0;
    while i < m.len()
        invariant
            i <= m@.len(),
            forall|k: int| 0 <= k < i ==> (#[trigger] m@[k]).0 != id,
        decreases m@.len() - i,
    {
        if m[i].0 == id {
            proof {
                lemma_lookup_targets(m@, id, i as int);
            }
            return Some(&m[i].1);
        }
        i = i + 1;
    }
    proof {
        lemma_lookup_targets(m@, id, i as int);
    }
    None
}

/// How good a target is for evolving: 120 for the active Pokémon, 20 per
/// attached energy, its HP left and 8 per point of matchup.
pub open spec fn evolve_score(view: GameView, target: CardInstanceId) -> int {
    (if is_active_id(view, target) { 120int } else { 0 }) + energy_on(view, target) * 20 + (match my_pokemon(view, target) {
        Some(p) => remaining(p),
        None => 0,
    }) + 8 * (match my_pokemon(view, target) {
        Some(p) => matchup(p, view.opponent_active),
        None => 0,
    })
}

pub open spec fn evolve_step(b: Option<(int, CardInstanceId, CardInstanceId)>, view: GameView, card: CardInstanceId, target: CardInstanceId) -> Option<(int, CardInstanceId, CardInstanceId)> {
    let s = evolve_score(view, target);
    match b {
        None => Some((s, card, target)),
        Some(x) => if s > x.0 { Some((s, card, target)) } else { b },
    }
}

pub open spec fn fold_targets(b: Option<(int, CardInstanceId, CardInstanceId)>, view: GameView, card: CardInstanceId, ts: Seq<CardInstanceId>) -> Option<(int, CardInstanceId, CardInstanceId)>
    decreases ts.len(),
{
    if ts.len() == 0 {
        b
    } else {
        evolve_step(fold_targets(b, view, card, ts.drop_last()), view, card, ts.last())
    }
}

/// The first best-scored (evolution card, target) pair, scanning the
/// playable evolution cards and each card's targets in order.
pub open spec fn fold_evolutions(view: GameView, cards: Seq<CardInstanceId>) -> Option<(int, CardInstanceId, CardInstanceId)>
    decreases cards.len(),
{
    if cards.len() == 0 {
        None
    } else {
        let b = fold_evolutions(view, cards.drop_last());
        match lookup_targets(view.action_hints.evolve_targets_by_card_id@, cards.last()) {
            Some(ts) => fold_targets(b, view, cards.last(), ts),
            None => b,
        }
    }
}

pub open spec fn best_evolution(view: GameView) -> Option<(int, CardInstanceId, CardInstanceId)> {
    fold_evolutions(view, view.action_hints.playable_evolution_ids@)
}

fn choose_evolution_action(view: &GameView) -> (r: Option<Action>)
    requires
        view_bounded(*view),
    ensures
        match best_evolution(*view) {
            None => r is None,
            Some(x) => r == Some(Action::EvolveFromHand { card_id: x.1, target_id: x.2 }),
        },
{
    let hints = &view.action_hints;
    let cards = &hints.playable_evolution_ids;
    let mut best: Option<(i64, CardInstanceId, CardInstanceId)> = None;
    let mut i: usize = 0;
    while i < cards.len()
        invariant
            i <= cards@.len(),
            hints == &view.action_hints,
            cards == &hints.playable_evolution_ids,
            view_bounded(*view),
            match best {
                None => fold_evolutions(*view, cards@.take(i as int)) is None,
                Some(b) => fold_evolutions(*view, cards@.take(i as int)) == Some((b.0 as int, b.1, b.2)),
            },
        decreases cards@.len() - i,
    {
        let card_id = cards[i];
        proof {
            assert(cards@.take(i + 1).drop_last() =~= cards@.take(i as int));
        }
        match find_targets(&hints.evolve_targets_by_card_id, card_id) {
            Some(targets) => {
                let ghost b0 = fold_evolutions(*view, cards@.take(i as int));
                let mut j: usize = 0;
                while j < targets.len()
                    invariant
                        j <= targets@.len(),
                        view_bounded(*view),
                        match best {
                            None => fold_targets(b0, *view, card_id, targets@.take(j as int)) is None,
                            Some(b) => fold_targets(b0, *view, card_id, targets@.take(j as int)) == Some((b.0 as int, b.1, b.2)),
                        },
                    decreases targets@.len() - j,
                {
                    let target_id = targets[j];
                    proof {
                        assert(targets@.take(j + 1).drop_last() =~= targets@.take(j as int));
                        lemma_my_pokemon_bounded(*view, target_id);
                    }
                    let energy = attached_energy_count_on(view, target_id) as i64;
                    let rem: i32 = match find_my_pokemon(view, target_id) {
                        Some(p) => remaining_hp(p),
                        None => 0,
                    };
                    let m: i32 = match find_my_pokemon(view, target_id) {
                        Some(p) => matchup_score_against_active(p, view.opponent_active.as_ref()),
                        None => 0,
                    };
                    let active_bonus: i64 = if is_my_active(view, target_id) { 120 } else { 0 };
                    let score = active_bonus + energy * 20 + rem as i64 + (m as i64) * 8;
                    match best {
                        None => {
                            best = Some((score, card_id, target_id));
                        },
                        Some(b) => {
                            if score > b.0 {
                                best = Some((score, card_id, target_id));
                            }
                        },
                    }
                    j = j + 1;
                }
                proof {
                    assert(targets@.take(j as int) =~= targets@);
                }
            },
            None => {},
        }
        i = i + 1;
    }
    assert(cards@.take(i as int) =~= cards@);
    match best {
        Some(b) => Some(Action::EvolveFromHand { card_id: b.1, target_id: b.2 }),
        None => None,
    }
}

// ---------------------------------------------------------------- trainer, basic, retreat

fn choose_trainer_action(view: &GameView, rng: &mut ChaCha8Rng) -> (r: Option<Action>)
    ensures
        r is None <==> view.action_hints.playable_trainer_ids@.len() == 0,
        r matches Some(a) ==> a matches Action::PlayTrainer { card_id } && view.action_hints.playable_trainer_ids@.contains(card_id),
{
    match choose_id(&view.action_hints.playable_trainer_ids, rng) {
        Some(card_id) => Some(Action::PlayTrainer { card_id }),
        None => None,
    }
}

fn choose_basic_action(view: &GameView, rng: &mut ChaCha8Rng) -> (r: Option<Action>)
    ensures
        r is None <==> view.action_hints.playable_basic_ids@.len() == 0,
        r matches Some(a) ==> a matches Action::PlayBasic { card_id } && view.action_hints.playable_basic_ids@.contains(card_id),
{
    match choose_id(&view.action_hints.playable_basic_ids, rng) {
        Some(card_id) => Some(Action::PlayBasic { card_id }),
        None => None,
    }
}

/// Benched Pokémon ranked for retreating into: 20 per attached energy, HP
/// left and 8 per point of matchup, ties to more HP left.
pub open spec fn retreat_keys(view: GameView) -> Seq<Keyed> {
    Seq::new(view.my_bench@.len(), |i: int| {
        let p = view.my_bench@[i];
        let rem = remaining(p);
        ((-(p.attached_energy@.len() * 20 + rem + 8 * matchup(p, view.opponent_active))) as i64, (-rem) as i64, p.card.id)
    })
}

pub open spec fn best_retreat(view: GameView) -> Option<CardInstanceId> {
    if view.my_bench@.len() == 0 { None } else { Some(sort_keyed(retreat_keys(view))[0].2) }
}

fn choose_retreat_action(view: &GameView) -> (r: Option<Action>)
    requires
        view_bounded(*view),
    ensures
        match best_retreat(*view) {
            None => r is None,
            Some(id) => r == Some(Action::Retreat { to_bench_id: id }),
        },
{
    if view.my_bench.len() == 0 {
        return None;
    }
    let mut scored: Vec<Keyed> = Vec::new();
    let mut i: usize = 0;
    while i < view.my_bench.len()
        invariant
            i <= view.my_bench@.len(),
            view_bounded(*view),
            scored@ == retreat_keys(*view).take(i as int),
        decreases view.my_bench@.len() - i,
    {
        let slot = &view.my_bench[i];
        proof {
            assert(energy_bounded(view.my_bench@[i as int]));
        }
        let energy = slot.attached_energy.len() as i64;
        let rem = remaining_hp(slot);
        let m = matchup_score_against_active(slot, view.opponent_active.as_ref());
        let score = energy * 20 + rem as i64 + (m as i64) * 8;
        scored.push((-(score as i64), -(rem as i64), slot.card.id));
        i = i + 1;
        assert(scored@ =~= retreat_keys(*view).take(i as int));
    }
    assert(retreat_keys(*view).take(i as int) =~= retreat_keys(*view));
    let sorted = sort_by_key(&scored);
    proof {
        crate::sort::lemma_sort_keyed_multiset(scored@);
    }
    Some(Action::Retreat { to_bench_id: sorted[0].2 })
}

// ---------------------------------------------------------------- discard

/// Options that are energy cards in the discard pile.
pub open spec fn discard_energy(view: GameView, options: Seq<CardInstanceId>) -> Seq<CardInstanceId> {
    options.filter(|id: CardInstanceId| first_card(view.my_discard@, id) matches Some(c) && c.energy_id is Some)
}

/// Options that are other cards in the discard pile.
pub open spec fn discard_other(view: GameView, options: Seq<CardInstanceId>) -> Seq<CardInstanceId> {
    options.filter(|id: CardInstanceId| first_card(view.my_discard@, id) matches Some(c) && c.energy_id is None)
}

/// Cards taken back from the discard pile: energy first (up to `take` of
/// them, at random), topped up at random with other cards; when no option is
/// an energy card, `take` random options.
pub open spec fn discard_pick_ok(view: GameView, options: Seq<CardInstanceId>, take: int, r: Seq<CardInstanceId>) -> bool {
    let e = discard_energy(view, options);
    let o = discard_other(view, options);
    if e.len() > 0 {
        let n1 = take_n(e.len() as int, take);
        if n1 == take {
            picks_from(r, e, take)
        } else {
            let n2 = take_n(o.len() as int, take - n1);
            &&& r.len() == n1 + n2
            &&& picks_from(r.take(n1), e, n1)
            &&& picks_from(r.skip(n1), o, n2)
        }
    } else {
        picks_from(r, options, take_n(options.len() as int, take))
    }
}

fn pick_energy_from_discard(view: &GameView, options: &Vec<CardInstanceId>, take: usize, rng: &mut ChaCha8Rng) -> (r: Vec<CardInstanceId>)
    ensures
        discard_pick_ok(*view, options@, take as int, r@),
{
    let ghost fe = |id: CardInstanceId| first_card(view.my_discard@, id) matches Some(c) && c.energy_id is Some;
    let ghost fo = |id: CardInstanceId| first_card(view.my_discard@, id) matches Some(c) && c.energy_id is None;
    let mut energy_ids: Vec<CardInstanceId> = Vec::new();
    let mut other_ids: Vec<CardInstanceId> = Vec::new();
    let mut i: usize = 0;
    while i < options.len()
        invariant
            i <= options@.len(),
            fe == (|id: CardInstanceId| first_card(view.my_discard@, id) matches Some(c) && c.energy_id is Some),
            fo == (|id: CardInstanceId| first_card(view.my_discard@, id) matches Some(c) && c.energy_id is None),
            energy_ids@ == options@.take(i as int).filter(fe),
            other_ids@ == options@.take(i as int).filter(fo),
        decreases options@.len() - i,
    {
        let id = options[i];
        proof {
            assert(options@.take(i + 1) =~= options@.take(i as int).push(id));
            options@.take(i as int).lemma_filter_push(id, fe);
            options@.take(i as int).lemma_filter_push(id, fo);
        }
        match find_card(&view.my_discard, id) {
            Some(card) => {
                if card.energy_id.is_some() {
                    energy_ids.push(id);
                } else {
                    other_ids.push(id);
                }
            },
            None => {},
        }
        i = i + 1;
    }
    assert(options@.take(i as int) =~= options@);
    if energy_ids.len() > 0 {
        let n1 = if take < energy_ids.len() { take } else { energy_ids.len() };
        let picked = choose_k(&energy_ids, n1, rng);
        if picked.len() == take {
            return picked;
        }
        let mut out = picked;
        let rest = if take > out.len() { take - out.len() } else { 0 };
        let more = choose_k(&other_ids, rest, rng);
        let ghost first = out@;
        let mut j: usize = 0;
        while j < more.len()
            invariant
                j <= more@.len(),
                out@ == first + more@.take(j as int),
            decreases more@.len() - j,
        {
            out.push(more[j]);
            j = j + 1;
            assert(out@ =~= first + more@.take(j as int));
        }
        proof {
            assert(more@.take(j as int) =~= more@);
            assert(out@.take(first.len() as int) =~= first);
            assert(out@.skip(first.len() as int) =~= more@);
        }
        return out;
    }
    choose_k(options, take, rng)
}

// ---------------------------------------------------------------- cards in play

pub open spec fn max_int(a: int, b: int) -> int {
    if a >= b { a } else { b }
}

/// The score of `id` after looking at Pokémon `p` (an opponent's when `opp`):
/// the Pokémon itself counts 60 (opponent) or 0, plus a tenth of how far its
/// HP left is below 200; its tool counts 90 or 10; its energy 100 or 20.
pub open spec fn consider(score: int, p: PokemonView, opp: bool, id: CardInstanceId) -> int {
    let s1 = if p.card.id == id {
        max_int(score, (if opp { 60int } else { 0 }) + max_int(200 - remaining(p), 0) / 10)
    } else {
        score
    };
    let s2 = if p.attached_tool matches Some(t) && t.id == id { max_int(s1, if opp { 90int } else { 10 }) } else { s1 };
    if ids_of_cards(p.attached_energy@).contains(id) { max_int(s2, if opp { 100int } else { 20 }) } else { s2 }
}

pub open spec fn consider_all(score: int, s: Seq<PokemonView>, opp: bool, id: CardInstanceId) -> int
    decreases s.len(),
{
    if s.len() == 0 {
        score
    } else {
        consider(consider_all(score, s.drop_last(), opp, id), s.last(), opp, id)
    }
}

pub open spec fn consider_opt(score: int, p: Option<PokemonView>, opp: bool, id: CardInstanceId) -> int {
    match p {
        Some(x) => consider(score, x, opp, id),
        None => score,
    }
}

/// How much a card in play is worth targeting: -5 unless it is a Pokémon,
/// tool or energy in play (the opponent's counting more).
pub open spec fn in_play_score(view: GameView, id: CardInstanceId) -> int {
    let s1 = consider_opt(-5, view.opponent_active, true, id);
    let s2 = consider_all(s1, view.opponent_bench@, true, id);
    let s3 = consider_opt(s2, view.my_active, false, id);
    consider_all(s3, view.my_bench@, false, id)
}

fn consider_pokemon(score: i32, p: &PokemonView, opp: bool, card_id: CardInstanceId) -> (r: i32)
    requires
        -5 <= score <= 100,
    ensures
        r == consider(score as int, *p, opp, card_id),
        -5 <= r <= 100,
{
    let mut s = score;
    if p.card.id == card_id {
        let rem = remaining_hp(p);
        let base: i32 = if opp { 60 } else { 0 };
        let below = if 200 - rem > 0 { 200 - rem } else { 0 };
        let hp_bonus = below / 10;
        if base + hp_bonus > s {
            s = base + hp_bonus;
        }
    }
    if let Some(tool) = &p.attached_tool {
        if tool.id == card_id {
            let v: i32 = if opp { 90 } else { 10 };
            if v > s {
                s = v;
            }
        }
    }
    let ids = crate::scoring::card_ids(&p.attached_energy);
    if contains_id(&ids, card_id) {
        let v: i32 = if opp { 100 } else { 20 };
        if v > s {
            s = v;
        }
    }
    s
}

fn consider_each(score: i32, s: &Vec<PokemonView>, opp: bool, card_id: CardInstanceId) -> (r: i32)
    requires
        -5 <= score <= 100,
    ensures
        r == consider_all(score as int, s@, opp, card_id),
        -5 <= r <= 100,
{
    let mut acc = score;
    let mut i: usize = 0;
    while i < s.len()
        invariant
            i <= s@.len(),
            -5 <= acc <= 100,
            acc == consider_all(score as int, s@.take(i as int), opp, card_id),
        decreases s@.len() - i,
    {
        proof {
            assert(s@.take(i + 1).drop_last() =~= s@.take(i as int));
        }
        acc = consider_pokemon(acc, &s[i], opp, card_id);
        i = i + 1;
    }
    assert(s@.take(i as int) =~= s@);
    acc
}

fn card_in_play_score(view: &GameView, card_id: CardInstanceId) -> (r: i32)
    ensures
        r == in_play_score(*view, card_id),
{
    let mut score: i32 = -5;
    if let Some(active) = &view.opponent_active {
        score = consider_pokemon(score, active, true, card_id);
    }
    score = consider_each(score, &view.opponent_bench, true, card_id);
    if let Some(active) = &view.my_active {
        score = consider_pokemon(score, active, false, card_id);
    }
    consider_each(score, &view.my_bench, false, card_id)
}

// ---------------------------------------------------------------- prompts

/// Starting active: the first option that is a playable basic, else the first option.
pub open spec fn starting_ok(view: GameView, options: Seq<CardInstanceId>, acts: Seq<Action>) -> bool {
    let valid = keep_allowed(options, view.action_hints.playable_basic_ids@);
    if valid.len() > 0 {
        acts == seq![Action::ChooseActive { card_id: valid[0] }]
    } else if options.len() > 0 {
        acts == seq![Action::ChooseActive { card_id: options[0] }]
    } else {
        acts.len() == 0
    }
}

fn respond_starting(view: &GameView, options: &Vec<CardInstanceId>) -> (r: Vec<Action>)
    ensures
        starting_ok(*view, options@, r@),
{
    let valid = filter_allowed(options, &view.action_hints.playable_basic_ids);
    let mut acts: Vec<Action> = Vec::new();
    if valid.len() > 0 {
        acts.push(Action::ChooseActive { card_id: valid[0] });
    } else if options.len() > 0 {
        acts.push(Action::ChooseActive { card_id: options[0] });
    }
    proof {
        if valid.len() > 0 {
            assert(acts@ =~= seq![Action::ChooseActive { card_id: valid@[0] }]);
        } else if options.len() > 0 {
            assert(acts@ =~= seq![Action::ChooseActive { card_id: options@[0] }]);
        }
    }
    acts
}

/// How many basics to bench: three, kept within what the prompt allows and
/// what is playable.
pub open spec fn bench_desired(valid_len: int, min: int, max: int) -> int {
    let rmin = min_int(min, valid_len);
    let amax = if min_int(max, valid_len) >= rmin { min_int(max, valid_len) } else { rmin };
    if amax == 0 { 0 } else { clamp(3, rmin, amax) }
}

/// Bench basics: that many random playable options, and, when the prompt
/// demands some, a second answer with just the demanded number.
pub open spec fn bench_ok(view: GameView, options: Seq<CardInstanceId>, min: usize, max: usize, acts: Seq<Action>) -> bool {
    let valid = keep_allowed(options, view.action_hints.playable_basic_ids@);
    let rmin = min_int(min as int, valid.len() as int);
    &&& acts.len() == (if rmin > 0 { 2int } else { 1 })
    &&& acts[0] matches Action::ChooseBench { card_ids } && picks_from(card_ids@, valid, bench_desired(valid.len() as int, min as int, max as int))
    &&& rmin > 0 ==> (acts[1] matches Action::ChooseBench { card_ids } && picks_from(card_ids@, valid, rmin))
}

fn respond_bench(view: &GameView, options: &Vec<CardInstanceId>, min: usize, max: usize, rng: &mut ChaCha8Rng) -> (r: Vec<Action>)
    ensures
        bench_ok(*view, options@, min, max, r@),
{
    let valid = filter_allowed(options, &view.action_hints.playable_basic_ids);
    let required_min = if min < valid.len() { min } else { valid.len() };
    let m = if max < valid.len() { max } else { valid.len() };
    let allowed_max = if m >= required_min { m } else { required_min };
    let desired: usize = if allowed_max == 0 {
        0
    } else if 3 < required_min {
        required_min
    } else if 3 > allowed_max {
        allowed_max
    } else {
        3
    };
    let picked = choose_k(&valid, desired, rng);
    let mut acts: Vec<Action> = Vec::new();
    acts.push(Action::ChooseBench { card_ids: picked });
    if required_min > 0 {
        let picked_min = choose_k(&valid, required_min, rng);
        acts.push(Action::ChooseBench { card_ids: picked_min });
    }
    acts
}

/// Attack prompt: the preferred attack, then every attack in a random order.
pub open spec fn attack_ok(view: GameView, attacks: Seq<Attack>, acts: Seq<Action>) -> bool {
    let n = attacks.len() as int;
    if n == 0 {
        acts.len() == 0
    } else {
        &&& acts.len() == n + 1
        &&& acts[0] matches Action::DeclareAttack { attack } && attack@ == attacks[best_attack_index(attacks, n, view.opponent_active, cost_weight(), ex_bonus())]@
        &&& exists|p: Seq<usize>| #![trigger is_order(p, n)] is_order(p, n) && declares_in_order(acts.skip(1), attacks, p)
    }
}

fn respond_attack(view: &GameView, attacks: &Vec<Attack>, rng: &mut ChaCha8Rng) -> (r: Vec<Action>)
    ensures
        attack_ok(*view, attacks@, r@),
{
    let mut acts: Vec<Action> = Vec::new();
    if attacks.len() == 0 {
        return acts;
    }
    match best_attack_for_view(view, attacks, 20, 150) {
        Some(best) => {
            acts.push(Action::DeclareAttack { attack: best });
        },
        None => {},
    }
    let ghost first = acts@;
    push_shuffled_attacks(&mut acts, attacks, rng);
    proof {
        assert(acts@[0] == acts@.take(1)[0]);
        assert(first.len() == 1);
    }
    acts
}

/// The last revealed card with that id (later entries replace earlier ones).
pub open spec fn last_revealed(cards: Seq<CardInstance>, id: CardInstanceId) -> Option<CardInstance>
    decreases cards.len(),
{
    if cards.len() == 0 {
        None
    } else if cards.last().id == id {
        Some(cards.last())
    } else {
        last_revealed(cards.drop_last(), id)
    }
}

pub open spec fn names_energy(c: CardInstance) -> bool {
    c.def_id@.len() >= "ENERGY-"@.len() && c.def_id@.take("ENERGY-"@.len() as int) == "ENERGY-"@
}

pub open spec fn revealed_energy(revealed: Seq<CardInstance>) -> spec_fn(CardInstanceId) -> bool {
    |id: CardInstanceId| last_revealed(revealed, id) matches Some(c) && names_energy(c)
}

fn find_last_revealed<'a>(cards: &'a Vec<CardInstance>, id: CardInstanceId) -> (r: Option<&'a CardInstance>)
    ensures
        r is Some == last_revealed(cards@, id) is Some,
        r matches Some(c) ==> *c == last_revealed(cards@, id).unwrap(),
{
    let mut i: usize = cards.len();
    while i > 0
        invariant
            i <= cards@.len(),
            last_revealed(cards@, id) == last_revealed(cards@.take(i as int), id),
        decreases i,
    {
        proof {
            assert(cards@.take(i as int).drop_last() =~= cards@.take(i - 1));
        }
        if cards[i - 1].id == id {
            return Some(&cards[i - 1]);
        }
        i = i - 1;
    }
    None
}

/// Deck search: for the other player, end the turn; with nothing to take
/// while the prompt demands cards, end the turn; otherwise take as many
/// cards as asked (within bounds) at random, preferring energy when no
/// energy is playable and else non-energy cards, and add an answer with the
/// demanded minimum when that differs.
pub open spec fn deck_ok(
    view: GameView,
    player: PlayerId,
    count: usize,
    options: Seq<CardInstanceId>,
    min: Option<usize>,
    max: Option<usize>,
    revealed: Seq<CardInstance>,
    acts: Seq<Action>,
) -> bool {
    let rmin = opt_or(min, count);
    let rmax = opt_or(max, count);
    if player != view.player_id {
        end_turn_only(acts)
    } else if options.len() == 0 && rmin > 0 {
        end_turn_only(acts)
    } else {
        let take = min_int(clamp(count as int, rmin, rmax), options.len() as int);
        let e = options.filter(revealed_energy(revealed));
        let o = options.filter(|id: CardInstanceId| !revealed_energy(revealed)(id));
        let pool = if view.action_hints.playable_energy_ids@.len() == 0 && e.len() > 0 {
            e
        } else if o.len() > 0 {
            o
        } else {
            options
        };
        let min_take = min_int(rmin, options.len() as int);
        &&& acts.len() == (if min_take != take { 2int } else { 1 })
        &&& acts[0] matches Action::TakeCardsFromDeck { card_ids } && picks_from(card_ids@, pool, min_int(take, pool.len() as int))
        &&& min_take != take ==> (acts[1] matches Action::TakeCardsFromDeck { card_ids } && picks_from(card_ids@, options, min_take))
    }
}

/// The deck prompt does not ask for more than it allows (the answer's count
/// is clamped between the two).
pub open spec fn deck_prompt_ok(view: GameView, player: PlayerId, count: usize, options: Seq<CardInstanceId>, min: Option<usize>, max: Option<usize>) -> bool {
    player == view.player_id && !(options.len() == 0 && opt_or(min, count) > 0) ==> opt_or(min, count) <= opt_or(max, count)
}

fn clamp_usize(x: usize, lo: usize, hi: usize) -> (r: usize)
    requires
        lo <= hi,
    ensures
        r == clamp(x as int, lo as int, hi as int),
{
    if x < lo { lo } else if x > hi { hi } else { x }
}

fn respond_deck(
    view: &GameView,
    player: PlayerId,
    count: usize,
    options: &Vec<CardInstanceId>,
    min: Option<usize>,
    max: Option<usize>,
    revealed: &Vec<CardInstance>,
    rng: &mut ChaCha8Rng,
) -> (r: Vec<Action>)
    requires
        deck_prompt_ok(*view, player, count, options@, min, max),
    ensures
        player != view.player_id ==> *final(rng) == *old(rng),
        deck_ok(*view, player, count, options@, min, max, revealed@, r@),
{
    if player != view.player_id {
        return end_turn();
    }
    let required_min = match min {
        Some(v) => v,
        None => count,
    };
    let required_max = match max {
        Some(v) => v,
        None => count,
    };
    if options.len() == 0 && required_min > 0 {
        return end_turn();
    }
    let desired = clamp_usize(count, required_min, required_max);
    let take = if desired < options.len() { desired } else { options.len() };
    let need_energy = view.action_hints.playable_energy_ids.len() == 0;
    let ghost fe = revealed_energy(revealed@);
    let ghost fo = |id: CardInstanceId| !revealed_energy(revealed@)(id);
    let mut energy_ids: Vec<CardInstanceId> = Vec::new();
    let mut other_ids: Vec<CardInstanceId> = Vec::new();
    let mut i: usize = 0;
    while i < options.len()
        invariant
            i <= options@.len(),
            fe == revealed_energy(revealed@),
            fo == (|id: CardInstanceId| !revealed_energy(revealed@)(id)),
            energy_ids@ == options@.take(i as int).filter(fe),
            other_ids@ == options@.take(i as int).filter(fo),
        decreases options@.len() - i,
    {
        let id = options[i];
        proof {
            assert(options@.take(i + 1) =~= options@.take(i as int).push(id));
            options@.take(i as int).lemma_filter_push(id, fe);
            options@.take(i as int).lemma_filter_push(id, fo);
        }
        match find_last_revealed(revealed, id) {
            Some(card) => {
                if str_starts_with(card.def_id.as_str(), "ENERGY-") {
                    energy_ids.push(id);
                } else {
                    other_ids.push(id);
                }
            },
            None => {
                other_ids.push(id);
            },
        }
        i = i + 1;
    }
    assert(options@.take(i as int) =~= options@);
    let picked = if need_energy && energy_ids.len() > 0 {
        choose_k(&energy_ids, take, rng)
    } else if other_ids.len() > 0 {
        choose_k(&other_ids, take, rng)
    } else {
        choose_k(options, take, rng)
    };
    let mut acts: Vec<Action> = Vec::new();
    acts.push(Action::TakeCardsFromDeck { card_ids: picked });
    let min_take = if required_min < options.len() { required_min } else { options.len() };
    if min_take != take {
        let picked_min = choose_k(options, min_take, rng);
        acts.push(Action::TakeCardsFromDeck { card_ids: picked_min });
    }
    acts
}

/// Discard search: as the deck search, with energy cards preferred and
/// topped up with other cards.
pub open spec fn discard_ok(
    view: GameView,
    player: PlayerId,
    count: usize,
    options: Seq<CardInstanceId>,
    min: Option<usize>,
    max: Option<usize>,
    acts: Seq<Action>,
) -> bool {
    let rmin = opt_or(min, count);
    let rmax = opt_or(max, count);
    if player != view.player_id {
        end_turn_only(acts)
    } else if options.len() == 0 && rmin > 0 {
        end_turn_only(acts)
    } else {
        let take = min_int(clamp(count as int, rmin, rmax), options.len() as int);
        let min_take = min_int(rmin, options.len() as int);
        &&& acts.len() == (if min_take != take { 2int } else { 1 })
        &&& acts[0] matches Action::TakeCardsFromDiscard { card_ids } && discard_pick_ok(view, options, take, card_ids@)
        &&& min_take != take ==> (acts[1] matches Action::TakeCardsFromDiscard { card_ids } && discard_pick_ok(view, options, min_take, card_ids@))
    }
}

fn respond_discard(
    view: &GameView,
    player: PlayerId,
    count: usize,
    options: &Vec<CardInstanceId>,
    min: Option<usize>,
    max: Option<usize>,
    rng: &mut ChaCha8Rng,
) -> (r: Vec<Action>)
    requires
        deck_prompt_ok(*view, player, count, options@, min, max),
    ensures
        player != view.player_id ==> *final(rng) == *old(rng),
        discard_ok(*view, player, count, options@, min, max, r@),
{
    if player != view.player_id {
        return end_turn();
    }
    let required_min = match min {
        Some(v) => v,
        None => count,
    };
    let required_max = match max {
        Some(v) => v,
        None => count,
    };
    if options.len() == 0 && required_min > 0 {
        return end_turn();
    }
    let desired = clamp_usize(count, required_min, required_max);
    let take = if desired < options.len() { desired } else { options.len() };
    let picked = pick_energy_from_discard(view, options, take, rng);
    let mut acts: Vec<Action> = Vec::new();
    acts.push(Action::TakeCardsFromDiscard { card_ids: picked });
    let min_take = if required_min < options.len() { required_min } else { options.len() };
    if min_take != take {
        let picked_min = pick_energy_from_discard(view, options, min_take, rng);
        acts.push(Action::TakeCardsFromDiscard { card_ids: picked_min });
    }
    acts
}

/// Pokémon targets: none when none may be taken; the opponent's weakest
/// Pokémon when any option is the opponent's; else the player's own Pokémon
/// with the least energy.
pub open spec fn pokemon_targets_ok(view: GameView, player: PlayerId, options: Seq<CardInstanceId>, min: usize, max: usize, acts: Seq<Action>) -> bool {
    let take = min_int(min_int(min as int, max as int), options.len() as int);
    if player != view.player_id {
        end_turn_only(acts)
    } else {
        &&& acts.len() == 1
        &&& acts[0] matches Action::ChoosePokemonTargets { target_ids } && (if take == 0 {
            target_ids@.len() == 0
        } else if exists|i: int| 0 <= i < options.len() && opponent_pokemon(view, #[trigger] options[i]) is Some {
            low_hp_targets_ok(view, options, take, target_ids@)
        } else {
            target_ids@ == ids_of(sort_keyed(keyed_by(options, low_energy_key(view)))).take(take)
        })
    }
}

/// Prompted to choose Pokémon in play when some option is an opponent's
/// Pokémon, the player targets the opponent's Pokémon with the least HP left:
/// every target is an option that is an opponent's Pokémon, and no opponent
/// option left out has less HP left than a target.
pub proof fn lemma_targets_have_least_hp(view: GameView, prompt: Prompt, acts: Seq<Action>)
    requires
        prompt_response_ok(view, prompt, acts),
        prompt matches Prompt::ChoosePokemonInPlay { player, options, .. } && player == view.player_id
            && exists|i: int| 0 <= i < options@.len() && opponent_pokemon(view, #[trigger] options@[i]) is Some,
    ensures
        ({
            let options = prompt->ChoosePokemonInPlay_options@;
            &&& acts[0] matches Action::ChoosePokemonTargets { target_ids }
            &&& forall|i: int| 0 <= i < acts[0]->ChoosePokemonTargets_target_ids@.len() ==> {
                let t = #[trigger] acts[0]->ChoosePokemonTargets_target_ids@[i];
                &&& options.contains(t)
                &&& opponent_pokemon(view, t) is Some
                &&& forall|k: int| 0 <= k < options.len() && opponent_pokemon(view, #[trigger] options[k]) is Some
                    && !acts[0]->ChoosePokemonTargets_target_ids@.contains(options[k])
                    ==> remaining(opponent_pokemon(view, t).unwrap()) <= remaining(opponent_pokemon(view, options[k]).unwrap())
            }
        }),
{
    let options = prompt->ChoosePokemonInPlay_options@;
    let min = prompt->ChoosePokemonInPlay_min;
    let max = prompt->ChoosePokemonInPlay_max;
    let take = min_int(min_int(min as int, max as int), options.len() as int);
    let r = acts[0]->ChoosePokemonTargets_target_ids@;
    if take != 0 {
        let f = low_hp_key(view);
        crate::sort::lemma_sorted_entries(options, f);
        let kb = keyed_by(options, f);
        let s = sort_keyed(kb);
        let w = choose|i: int| 0 <= i < options.len() && opponent_pokemon(view, #[trigger] options[i]) is Some;
        assert(f(options[w]) is Some);
        assert(s.contains((f(options[w]).unwrap().0, f(options[w]).unwrap().1, options[w])));
        assert(kb.len() > 0);
        let m = take_n(kb.len() as int, take);
        assert(r == ids_of(s).take(m));
        assert forall|i: int| 0 <= i < r.len() implies {
            let t = #[trigger] r[i];
            &&& options.contains(t)
            &&& opponent_pokemon(view, t) is Some
            &&& forall|k: int| 0 <= k < options.len() && opponent_pokemon(view, #[trigger] options[k]) is Some
                && !r.contains(options[k])
                ==> remaining(opponent_pokemon(view, t).unwrap()) <= remaining(opponent_pokemon(view, options[k]).unwrap())
        } by {
            assert(r[i] == s[i].2);
            assert(f(s[i].2) == Some((s[i].0, s[i].1)));
            assert forall|k: int| 0 <= k < options.len() && opponent_pokemon(view, #[trigger] options[k]) is Some
                && !r.contains(options[k])
                implies remaining(opponent_pokemon(view, r[i]).unwrap()) <= remaining(opponent_pokemon(view, options[k]).unwrap()) by {
                let d = options[k];
                assert(f(options[k]) is Some);
                let e = (f(d).unwrap().0, f(d).unwrap().1, d);
                assert(s.contains(e));
                let j = choose|j: int| 0 <= j < s.len() && s[j] == e;
                if j < m {
                    assert(r[j] == d);
                    assert(r.contains(d));
                }
                assert(key_le(s[i], s[j]));
            }
        }
    }
}

fn respond_pokemon_in_play(view: &GameView, player: PlayerId, options: &Vec<CardInstanceId>, min: usize, max: usize, rng: &mut ChaCha8Rng) -> (r: Vec<Action>)
    requires
        view_bounded(*view),
    ensures
        pokemon_targets_ok(*view, player, options@, min, max, r@),
        *final(rng) == *old(rng),
{
    if player != view.player_id {
        return end_turn();
    }
    let a = if min < max { min } else { max };
    let take = if a < options.len() { a } else { options.len() };
    let mut acts: Vec<Action> = Vec::new();
    if take == 0 {
        acts.push(Action::ChoosePokemonTargets { target_ids: Vec::new() });
        return acts;
    }
    let mut any_opponent = false;
    let mut i: usize = 0;
    while i < options.len()
        invariant
            i <= options@.len(),
            any_opponent == exists|k: int| 0 <= k < i && opponent_pokemon(*view, #[trigger] options@[k]) is Some,
        decreases options@.len() - i,
    {
        if find_opponent_pokemon(view, options[i]).is_some() {
            any_opponent = true;
        }
        i = i + 1;
    }
    let picked = if any_opponent {
        proof {
            let k = choose|k: int| 0 <= k < options@.len() && opponent_pokemon(*view, #[trigger] options@[k]) is Some;
            lemma_keyed_by_nonempty(options@, low_hp_key(*view), k);
        }
        pick_opponent_targets_low_hp(view, options, take, rng)
    } else {
        pick_own_targets_low_energy(view, options, take)
    };
    acts.push(Action::ChoosePokemonTargets { target_ids: picked });
    acts
}

/// The hand cards picked by ranking `pool` with some jitter in `0..3`.
pub open spec fn disposable_pick(view: GameView, pool: Seq<CardInstanceId>, take: int, r: Seq<CardInstanceId>) -> bool {
    exists|jitter: Seq<i32>| #![trigger disposable_keys(view, pool, jitter)]
        jitter.len() == pool.len()
        && (forall|i: int| 0 <= i < jitter.len() ==> 0 <= #[trigger] jitter[i] < 3)
        && r == ids_of(sort_keyed(disposable_keys(view, pool, jitter))).take(take_n(pool.len() as int, take))
}

pub open spec fn hand_action(a: Action, to_deck: bool, view: GameView, pool: Seq<CardInstanceId>, take: int) -> bool {
    if to_deck {
        a matches Action::ReturnCardsFromHandToDeck { card_ids } && disposable_pick(view, pool, take, card_ids@)
    } else {
        a matches Action::DiscardCardsFromHand { card_ids } && disposable_pick(view, pool, take, card_ids@)
    }
}

pub open spec fn hand_pool(view: GameView, options: Seq<CardInstanceId>) -> Seq<CardInstanceId> {
    if options.len() > 0 { options } else { ids_of_cards(view.my_hand@) }
}

/// Hand cards: the most disposable cards of the options (or of the whole
/// hand when none are offered), returned to the deck or discarded as the
/// prompt says, with a second answer for the demanded minimum when that differs.
pub open spec fn hand_ok(
    view: GameView,
    player: PlayerId,
    count: usize,
    options: Seq<CardInstanceId>,
    min: Option<usize>,
    max: Option<usize>,
    to_deck: bool,
    acts: Seq<Action>,
) -> bool {
    let rmin = opt_or(min, count);
    let rmax = opt_or(max, count);
    let pool = hand_pool(view, options);
    if player != view.player_id {
        end_turn_only(acts)
    } else if pool.len() == 0 && rmin > 0 {
        end_turn_only(acts)
    } else {
        let take = min_int(clamp(count as int, rmin, rmax), pool.len() as int);
        let min_take = min_int(rmin, pool.len() as int);
        &&& acts.len() == (if min_take != take { 2int } else { 1 })
        &&& hand_action(acts[0], to_deck, view, pool, take)
        &&& min_take != take ==> hand_action(acts[1], to_deck, view, pool, min_take)
    }
}

pub open spec fn hand_prompt_ok(view: GameView, player: PlayerId, count: usize, options: Seq<CardInstanceId>, min: Option<usize>, max: Option<usize>) -> bool {
    player == view.player_id && !(hand_pool(view, options).len() == 0 && opt_or(min, count) > 0) ==> opt_or(min, count) <= opt_or(max, count)
}

fn hand_answer(to_deck: bool, card_ids: Vec<CardInstanceId>) -> (r: Action)
    ensures
        to_deck ==> r == (Action::ReturnCardsFromHandToDeck { card_ids }),
        !to_deck ==> r == (Action::DiscardCardsFromHand { card_ids }),
{
    if to_deck {
        Action::ReturnCardsFromHandToDeck { card_ids }
    } else {
        Action::DiscardCardsFromHand { card_ids }
    }
}

fn respond_hand(
    view: &GameView,
    player: PlayerId,
    count: usize,
    options: &Vec<CardInstanceId>,
    min: Option<usize>,
    max: Option<usize>,
    to_deck: bool,
    rng: &mut ChaCha8Rng,
) -> (r: Vec<Action>)
    requires
        hand_prompt_ok(*view, player, count, options@, min, max),
    ensures
        player != view.player_id ==> *final(rng) == *old(rng),
        hand_ok(*view, player, count, options@, min, max, to_deck, r@),
{
    if player != view.player_id {
        return end_turn();
    }
    let required_min = match min {
        Some(v) => v,
        None => count,
    };
    let required_max = match max {
        Some(v) => v,
        None => count,
    };
    let pool: Vec<CardInstanceId> = if options.len() > 0 { copy_ids(options) } else { card_ids(&view.my_hand) };
    if pool.len() == 0 && required_min > 0 {
        return end_turn();
    }
    let desired = clamp_usize(count, required_min, required_max);
    let take = if desired < pool.len() { desired } else { pool.len() };
    let picked = pick_hand_cards_disposable(view, &pool, take, rng);
    let mut acts: Vec<Action> = Vec::new();
    acts.push(hand_answer(to_deck, picked));
    let min_take = if required_min < pool.len() { required_min } else { pool.len() };
    if min_take != take {
        let picked_min = pick_hand_cards_disposable(view, &pool, min_take, rng);
        acts.push(hand_answer(to_deck, picked_min));
    }
    acts
}

/// Cards in play ranked by how much they are worth targeting; equal scores
/// keep the options' order.
pub open spec fn in_play_keys(view: GameView, options: Seq<CardInstanceId>) -> Seq<Keyed> {
    Seq::new(options.len(), |i: int| ((-in_play_score(view, options[i])) as i64, 0i64, options[i]))
}

pub open spec fn cards_in_play_ok(view: GameView, player: PlayerId, options: Seq<CardInstanceId>, min: usize, max: usize, acts: Seq<Action>) -> bool {
    let take = min_int(min_int(min as int, max as int), options.len() as int);
    if player != view.player_id {
        end_turn_only(acts)
    } else {
        &&& acts.len() == 1
        &&& acts[0] matches Action::ChooseCardsInPlay { card_ids } && card_ids@ == ids_of(sort_keyed(in_play_keys(view, options))).take(take)
    }
}

fn respond_cards_in_play(view: &GameView, player: PlayerId, options: &Vec<CardInstanceId>, min: usize, max: usize) -> (r: Vec<Action>)
    ensures
        cards_in_play_ok(*view, player, options@, min, max, r@),
{
    if player != view.player_id {
        return end_turn();
    }
    let a = if min < max { min } else { max };
    let take = if a < options.len() { a } else { options.len() };
    let mut scored: Vec<Keyed> = Vec::new();
    let mut i: usize = 0;
    while i < options.len()
        invariant
            i <= options@.len(),
            scored@ == in_play_keys(*view, options@).take(i as int),
        decreases options@.len() - i,
    {
        let score = card_in_play_score(view, options[i]);
        scored.push((-(score as i64), 0, options[i]));
        i = i + 1;
        assert(scored@ =~= in_play_keys(*view, options@).take(i as int));
    }
    assert(in_play_keys(*view, options@).take(i as int) =~= in_play_keys(*view, options@));
    let sorted = sort_by_key(&scored);
    proof {
        crate::sort::lemma_sort_keyed_multiset(scored@);
    }
    let picked = take_ids(&sorted, take);
    let mut acts: Vec<Action> = Vec::new();
    if take == 0 {
        acts.push(Action::ChooseCardsInPlay { card_ids: Vec::new() });
    } else {
        acts.push(Action::ChooseCardsInPlay { card_ids: picked });
    }
    acts
}

/// New active: the best-ranked candidate, then every candidate in a random order.
pub open spec fn new_active_ok(view: GameView, player: PlayerId, options: Seq<CardInstanceId>, acts: Seq<Action>) -> bool {
    let c = new_active_candidates(view, options);
    if player != view.player_id {
        end_turn_only(acts)
    } else if c.len() == 0 {
        acts.len() == 0
    } else {
        &&& acts.len() == c.len() + 1
        &&& acts[0] == (Action::ChooseNewActive { card_id: best_new_active(view, options).unwrap() })
        &&& new_active_tail(acts.skip(1), c)
    }
}

fn respond_new_active(view: &GameView, player: PlayerId, options: &Vec<CardInstanceId>, rng: &mut ChaCha8Rng) -> (r: Vec<Action>)
    requires
        view_bounded(*view),
    ensures
        player != view.player_id ==> *final(rng) == *old(rng),
        new_active_ok(*view, player, options@, r@),
{
    if player != view.player_id {
        return end_turn();
    }
    let mut acts: Vec<Action> = Vec::new();
    match choose_new_active_best(view, options) {
        Some(best) => {
            acts.push(Action::ChooseNewActive { card_id: best });
        },
        None => {},
    }
    let candidates: Vec<CardInstanceId> = if options.len() == 0 { bench_ids(&view.my_bench) } else { copy_ids(options) };
    let ghost first = acts@;
    assert(candidates@ == new_active_candidates(*view, options@));
    push_shuffled_new_actives(&mut acts, &candidates, rng);
    proof {
        if candidates@.len() > 0 {
            assert(first.len() == 1);
            assert(acts@[0] == acts@.take(1)[0]);
        }
    }
    acts
}

/// Prompts whose answer would ask the rules for a count outside the bounds
/// they set (the clamp of the count would fail).
pub open spec fn prompt_ok(view: GameView, prompt: Prompt) -> bool {
    match prompt {
        Prompt::ChooseCardsFromDeck { player, count, options, min, max, .. } => deck_prompt_ok(view, player, count, options@, min, max),
        Prompt::ChooseCardsFromDiscard { player, count, options, min, max } => deck_prompt_ok(view, player, count, options@, min, max),
        Prompt::ChooseCardsFromHand { player, count, options, min, max, .. } => hand_prompt_ok(view, player, count, options@, min, max),
        _ => true,
    }
}
/// Whether the bounds of a search or hand prompt can be met: for the
/// player's own prompt with something to pick from (or nothing demanded),
/// the least count does not exceed the most.
fn bounds_hold(view: &GameView, player: PlayerId, count: usize, pool_len: usize, min: Option<usize>, max: Option<usize>) -> (r: bool)
    ensures
        r == (player == view.player_id && !(pool_len == 0 && opt_or(min, count) > 0) ==> opt_or(min, count) <= opt_or(max, count)),
{
    let lo = match min { Some(v) => v, None => count };
    let hi = match max { Some(v) => v, None => count };
    if player != view.player_id || (pool_len == 0 && lo > 0) {
        true
    } else {
        lo <= hi
    }
}

/// Whether this player can answer the prompt (see `prompt_ok`).
pub fn prompt_is_answerable(view: &GameView, prompt: &Prompt) -> (r: bool)
    ensures
        r == prompt_ok(*view, *prompt),
{
    match prompt {
        Prompt::ChooseCardsFromDeck { player, count, options, min, max, .. } => bounds_hold(view, *player, *count, options.len(), *min, *max),
        Prompt::ChooseCardsFromDiscard { player, count, options, min, max } => bounds_hold(view, *player, *count, options.len(), *min, *max),
        Prompt::ChooseCardsFromHand { player, count, options, min, max, .. } => {
            let pool_len = if options.len() > 0 { options.len() } else { view.my_hand.len() };
            bounds_hold(view, *player, *count, pool_len, *min, *max)
        },
        _ => true,
    }
}


/// The answer given to each prompt.
pub open spec fn prompt_response_ok(view: GameView, prompt: Prompt, acts: Seq<Action>) -> bool {
    match prompt {
        Prompt::ChooseStartingActive { options } => starting_ok(view, options@, acts),
        Prompt::ChooseBenchBasics { options, min, max } => bench_ok(view, options@, min, max, acts),
        Prompt::ChooseAttack { attacks } => attack_ok(view, attacks@, acts),
        Prompt::ChooseCardsFromDeck { player, count, options, min, max, revealed_cards } => deck_ok(
            view,
            player,
            count,
            options@,
            min,
            max,
            revealed_cards@,
            acts,
        ),
        Prompt::ChooseCardsFromDiscard { player, count, options, min, max } => discard_ok(view, player, count, options@, min, max, acts),
        Prompt::ChoosePokemonInPlay { player, options, min, max } => pokemon_targets_ok(view, player, options@, min, max, acts),
        Prompt::ReorderDeckTop { player, options } => if player != view.player_id {
            end_turn_only(acts)
        } else {
            reorder_answer(options@, acts)
        },
        Prompt::ChooseAttachedEnergy { player, pokemon_id, count, min } => attached_energy_ok(view, player, pokemon_id, count, min, acts),
        Prompt::ChooseCardsFromHand { player, count, options, min, max, return_to_deck } => hand_ok(
            view,
            player,
            count,
            options@,
            min,
            max,
            return_to_deck,
            acts,
        ),
        Prompt::ChooseCardsInPlay { player, options, min, max } => cards_in_play_ok(view, player, options@, min, max, acts),
        Prompt::ChoosePrizeCards { player, options, min, max } => if player != view.player_id {
            end_turn_only(acts)
        } else {
            prize_answer(options@, min, max, acts)
        },
        Prompt::ChooseDefenderAttack { player, attacks } => if player != view.player_id {
            end_turn_only(acts)
        } else {
            names_answer(attacks@, acts, false)
        },
        Prompt::ChooseNewActive { player, options } => new_active_ok(view, player, options@, acts),
        Prompt::ChoosePokemonAttack { player, attacks } => if player != view.player_id {
            end_turn_only(acts)
        } else {
            names_answer(attacks@, acts, true)
        },
        Prompt::ChooseSpecialCondition { player, options } => if player != view.player_id {
            end_turn_only(acts)
        } else {
            conditions_answer(options@, acts)
        },
    }
}

/// The prompts this player answers without drawing from its generator: the
/// starting Pokémon, Pokémon in play, cards in play, and every prompt that
/// is for the other player.
pub open spec fn answers_without_drawing(view: GameView, prompt: Prompt) -> bool {
    match prompt {
        Prompt::ChooseStartingActive { .. } => true,
        Prompt::ChoosePokemonInPlay { .. } => true,
        Prompt::ChooseCardsInPlay { .. } => true,
        _ => prompt_for_other(view, prompt),
    }
}

impl CandidateAi {
    /// The answers to try, in order, for a prompt.
    pub fn propose_prompt_response(&mut self, view: &GameView, prompt: &Prompt) -> (r: Vec<Action>)
        requires
            view_bounded(*view),
            prompt_ok(*view, *prompt),
        ensures
            prompt_response_ok(*view, *prompt, r@),
            answers_without_drawing(*view, *prompt) ==> final(self).generator() == old(self).generator(),
    {
        match prompt {
            Prompt::ChooseStartingActive { options } => respond_starting(view, options),
            Prompt::ChooseBenchBasics { options, min, max } => respond_bench(view, options, *min, *max, &mut self.rng),
            Prompt::ChooseAttack { attacks } => respond_attack(view, attacks, &mut self.rng),
            Prompt::ChooseCardsFromDeck { player, count, options, min, max, revealed_cards } => respond_deck(
                view,
                *player,
                *count,
                options,
                *min,
                *max,
                revealed_cards,
                &mut self.rng,
            ),
            Prompt::ChooseCardsFromDiscard { player, count, options, min, max } => respond_discard(
                view,
                *player,
                *count,
                options,
                *min,
                *max,
                &mut self.rng,
            ),
            Prompt::ChoosePokemonInPlay { player, options, min, max } => respond_pokemon_in_play(
                view,
                *player,
                options,
                *min,
                *max,
                &mut self.rng,
            ),
            Prompt::ReorderDeckTop { player, options } => {
                if *player != view.player_id {
                    end_turn()
                } else {
                    answer_reorder(options, &mut self.rng)
                }
            },
            Prompt::ChooseAttachedEnergy { player, pokemon_id, count, min } => respond_attached_energy(
                view,
                *player,
                *pokemon_id,
                *count,
                *min,
                50,
                &mut self.rng,
            ),
            Prompt::ChooseCardsFromHand { player, count, options, min, max, return_to_deck } => respond_hand(
                view,
                *player,
                *count,
                options,
                *min,
                *max,
                *return_to_deck,
                &mut self.rng,
            ),
            Prompt::ChooseCardsInPlay { player, options, min, max } => respond_cards_in_play(view, *player, options, *min, *max),
            Prompt::ChoosePrizeCards { player, options, min, max } => {
                if *player != view.player_id {
                    end_turn()
                } else {
                    answer_prizes(options, *min, *max, &mut self.rng)
                }
            },
            Prompt::ChooseDefenderAttack { player, attacks } => {
                if *player != view.player_id {
                    end_turn()
                } else {
                    answer_names(attacks, false, &mut self.rng)
                }
            },
            Prompt::ChooseNewActive { player, options } => respond_new_active(view, *player, options, &mut self.rng),
            Prompt::ChoosePokemonAttack { player, attacks } => {
                if *player != view.player_id {
                    end_turn()
                } else {
                    answer_names(attacks, true, &mut self.rng)
                }
            },
            Prompt::ChooseSpecialCondition { player, options } => {
                if *player != view.player_id {
                    end_turn()
                } else {
                    answer_conditions(options, &mut self.rng)
                }
            },
        }
    }
}

// ---------------------------------------------------------------- own turn

/// The attack that names nothing, costs nothing and does nothing.
pub open spec fn is_dummy(a: AttackValue) -> bool {
    a.name.len() == 0 && a.damage == 0 && a.attack_type == crate::model::Type::Colorless && a.total_energy == 0
        && a.cost_types.len() == 0 && a.effect is None
}

pub open spec fn best_usable_index(view: GameView) -> int {
    best_attack_index(view.action_hints.usable_attacks@, view.action_hints.usable_attacks@.len() as int, view.opponent_active, cost_weight(), ex_bonus())
}

/// The preferred usable attack knocks the defender out (with no defender,
/// it must do 9999 damage).
pub open spec fn can_knock_out(view: GameView) -> bool {
    let n = view.action_hints.usable_attacks@.len();
    n > 0 && expected_damage(view.action_hints.usable_attacks@[best_usable_index(view)]@, view.opponent_active) >= (match view.opponent_active {
        Some(d) => remaining(d),
        None => 9999,
    })
}

/// The actions tried during the player's own turn, in order: an evolution
/// and a trainer (unless a knock-out is at hand), an energy attachment, a
/// basic Pokémon (always with fewer than 2 benched, else by chance), a
/// retreat when the active Pokémon is below 40% HP and no attack is
/// possible, the preferred attack (or any attack), and ending the turn.
pub open spec fn free_actions_ok(view: GameView, acts: Seq<Action>) -> bool {
    let h = view.action_hints;
    let n = h.usable_attacks@.len() as int;
    let can_attack_now = h.can_declare_attack && n > 0;
    let can_attach = h.playable_energy_ids@.len() > 0 && h.attach_targets@.len() > 0;
    let can_basic = h.playable_basic_ids@.len() > 0;
    let urgent = can_attack_now && can_knock_out(view);
    let e = if h.playable_evolution_ids@.len() > 0 && !urgent && best_evolution(view) is Some { 1int } else { 0 };
    let t = if h.playable_trainer_ids@.len() > 0 && !urgent { 1int } else { 0 };
    let a = if can_attach { 1int } else { 0 };
    let r = if !can_attack_now && health_below(view, 40, 100) && view.my_bench@.len() > 0 { 1int } else { 0 };
    let d = if n > 0 || h.can_declare_attack { 1int } else { 0 };
    let b = acts.len() - (e + t + a + r + d + 1);
    if view.current_player != view.player_id || view.has_pending_prompt {
        acts.len() == 0
    } else {
        &&& (b == 0 || b == 1)
        &&& (b == 1 ==> can_basic)
        &&& (can_basic && view.my_bench@.len() < 2 ==> b == 1)
        &&& (e == 1 ==> acts[0] == (Action::EvolveFromHand { card_id: best_evolution(view).unwrap().1, target_id: best_evolution(view).unwrap().2 }))
        &&& (t == 1 ==> (acts[e] matches Action::PlayTrainer { card_id } && h.playable_trainer_ids@.contains(card_id)))
        &&& (a == 1 ==> (acts[e + t] matches Action::AttachEnergy { energy_id, target_id }
            && attach_target_ok(view, h.attach_targets@, can_attack_now, Some(target_id))
            && (energy_choice_ok(view, target_id, if n > 0 { Some(h.usable_attacks@[best_usable_index(view)]@) } else { None }, Some(energy_id))
                || (energy_choice_ok(view, target_id, if n > 0 { Some(h.usable_attacks@[best_usable_index(view)]@) } else { None }, None)
                    && h.playable_energy_ids@.contains(energy_id)))))
        &&& (b == 1 ==> (acts[e + t + a] matches Action::PlayBasic { card_id } && h.playable_basic_ids@.contains(card_id)))
        &&& (r == 1 ==> acts[e + t + a + b] == (Action::Retreat { to_bench_id: best_retreat(view).unwrap() }))
        &&& (d == 1 ==> (acts[e + t + a + b + r] matches Action::DeclareAttack { attack } && (if n > 0 {
            attack@ == h.usable_attacks@[best_usable_index(view)]@
        } else {
            is_dummy(attack@)
        })))
        &&& acts.last() is EndTurn
    }
}

impl CandidateAi {
    /// The actions to try, in order, during the player's own turn.
    pub fn propose_free_actions(&mut self, view: &GameView) -> (r: Vec<Action>)
        requires
            view_bounded(*view),
        ensures
            free_actions_ok(*view, r@),
            view.current_player != view.player_id || view.has_pending_prompt ==> final(self).generator() == old(self).generator(),
    {
        let mut actions: Vec<Action> = Vec::new();
        if view.current_player != view.player_id {
            return actions;
        }
        if view.has_pending_prompt {
            return actions;
        }
        let hints = &view.action_hints;
        let can_attack_now = hints.can_declare_attack && hints.usable_attacks.len() > 0;
        let can_attach_energy = hints.playable_energy_ids.len() > 0 && hints.attach_targets.len() > 0;
        let can_play_basic = hints.playable_basic_ids.len() > 0;
        let want_play_basic = can_play_basic && should_play_basic_now(view, &mut self.rng);
        let can_play_trainer = hints.playable_trainer_ids.len() > 0;
        let can_evolve = hints.playable_evolution_ids.len() > 0;
        let best_attack = best_attack_for_view(view, &hints.usable_attacks, 20, 150);
        let defender = view.opponent_active.as_ref();
        let can_ko = match &best_attack {
            Some(attack) => {
                let rem: i32 = match defender {
                    Some(d) => remaining_hp(d),
                    None => 9999,
                };
                expected_damage_vs(attack, defender) >= rem
            },
            None => false,
        };
        let urgent_attack = can_attack_now && can_ko;
        let ghost e = if can_evolve && !urgent_attack && best_evolution(*view) is Some { 1int } else { 0 };
        let ghost t = if can_play_trainer && !urgent_attack { 1int } else { 0 };
        let ghost a = if can_attach_energy { 1int } else { 0 };
        if can_evolve && !urgent_attack {
            match choose_evolution_action(view) {
                Some(action) => {
                    actions.push(action);
                },
                None => {},
            }
        }
        assert(actions@.len() == e);
        if can_play_trainer && !urgent_attack {
            match choose_trainer_action(view, &mut self.rng) {
                Some(action) => {
                    actions.push(action);
                },
                None => {},
            }
        }
        assert(actions@.len() == e + t);
        if can_attach_energy {
            match choose_energy_attach_target(view, &hints.attach_targets, can_attack_now, &mut self.rng) {
                Some(target_id) => {
                    let chosen = choose_energy_for_target(view, target_id, best_attack.as_ref(), &mut self.rng);
                    let energy = match chosen {
                        Some(x) => Some(x),
                        None => choose_id(&hints.playable_energy_ids, &mut self.rng),
                    };
                    match energy {
                        Some(energy_id) => {
                            actions.push(Action::AttachEnergy { energy_id, target_id });
                        },
                        None => {},
                    }
                },
                None => {},
            }
        }
        assert(actions@.len() == e + t + a);
        let ghost b = if want_play_basic { 1int } else { 0 };
        if want_play_basic {
            match choose_basic_action(view, &mut self.rng) {
                Some(action) => {
                    actions.push(action);
                },
                None => {},
            }
        }
        assert(actions@.len() == e + t + a + b);
        if !can_attack_now {
            let active_unhealthy = active_health_below(view, 40, 100);
            if active_unhealthy {
                match choose_retreat_action(view) {
                    Some(action) => {
                        actions.push(action);
                    },
                    None => {},
                }
            }
        }
        match best_attack {
            Some(best) => {
                actions.push(Action::DeclareAttack { attack: best });
            },
            None => {
                if hints.can_declare_attack {
                    actions.push(Action::DeclareAttack { attack: dummy_attack() });
                }
            },
        }
        actions.push(Action::EndTurn);
        actions
    }
}

} // verus!
