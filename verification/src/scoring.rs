//! Evaluation of Pokémon, attacks and matchups shared by the heuristic
//! players, and the small list operations they are built from.
use vstd::prelude::*;
use crate::model::{Attack, AttackValue, CardInstance, CardInstanceId, GameView, PokemonView, Type, copy_ids, copy_attack};
use crate::rng::{shuffle, choose_one};
use rand_chacha::ChaCha8Rng;

verus! {

broadcast use vstd::seq_lib::group_seq_properties;

// ---------------------------------------------------------------- Pokémon

/// Hit points left: printed HP less 10 per damage counter (may be negative).
pub open spec fn raw_remaining(p: PokemonView) -> int {
    p.hp - 10 * p.damage_counters
}

/// Hit points left, never below zero.
pub open spec fn remaining(p: PokemonView) -> int {
    if raw_remaining(p) < 0 { 0 } else { raw_remaining(p) }
}

pub fn raw_remaining_hp(p: &PokemonView) -> (r: i32)
    ensures
        r == raw_remaining(*p),
{
    p.hp as i32 - p.damage_counters as i32 * 10
}

pub fn remaining_hp(p: &PokemonView) -> (r: i32)
    ensures
        r == remaining(*p),
        0 <= r <= 65535,
{
    let rem = raw_remaining_hp(p);
    if rem < 0 { 0 } else { rem }
}

/// The first Pokémon of `s` whose card has id `id`.
pub open spec fn first_with_id(s: Seq<PokemonView>, id: CardInstanceId) -> Option<PokemonView>
    decreases s.len(),
{
    if s.len() == 0 {
        None
    } else if s[0].card.id == id {
        Some(s[0])
    } else {
        first_with_id(s.drop_first(), id)
    }
}

proof fn lemma_first_with_id(s: Seq<PokemonView>, id: CardInstanceId, i: int)
    requires
        0 <= i <= s.len(),
        forall|k: int| 0 <= k < i ==> (#[trigger] s[k]).card.id != id,
    ensures
        i == s.len() ==> first_with_id(s, id) is None,
        i < s.len() && s[i].card.id == id ==> first_with_id(s, id) == Some(s[i]),
    decreases i,
{
    if i > 0 {
        assert forall|k: int| 0 <= k < i - 1 implies (#[trigger] s.drop_first()[k]).card.id != id by {
            assert(s.drop_first()[k] == s[k + 1]);
        }
        lemma_first_with_id(s.drop_first(), id, i - 1);
    }
}

/// Finds the first Pokémon of `s` with card id `id`.
pub fn find_in<'a>(s: &'a Vec<PokemonView>, id: CardInstanceId) -> (r: Option<&'a PokemonView>)
    ensures
        r is Some == first_with_id(s@, id) is Some,
        r matches Some(p) ==> *p == first_with_id(s@, id).unwrap(),
{
    let mut i: usize = 0;
    while i < s.len()
        invariant
            i <= s.len(),
            forall|k: int| 0 <= k < i ==> (#[trigger] s@[k]).card.id != id,
        decreases s.len() - i,
    {
        if s[i].card.id == id {
            proof {
                lemma_first_with_id(s@, id, i as int);
            }
            return Some(&s[i]);
        }
        i = i + 1;
    }
    proof {
        lemma_first_with_id(s@, id, i as int);
    }
    None
}

/// One of the player's own Pokémon: the active one when its id matches,
/// else the first benched one with that id.
pub open spec fn my_pokemon(view: GameView, id: CardInstanceId) -> Option<PokemonView> {
    match view.my_active {
        Some(a) if a.card.id == id => Some(a),
        _ => first_with_id(view.my_bench@, id),
    }
}

/// One of the opponent's Pokémon, looked up as `my_pokemon` does.
pub open spec fn opponent_pokemon(view: GameView, id: CardInstanceId) -> Option<PokemonView> {
    match view.opponent_active {
        Some(a) if a.card.id == id => Some(a),
        _ => first_with_id(view.opponent_bench@, id),
    }
}

pub open spec fn is_active_id(view: GameView, id: CardInstanceId) -> bool {
    view.my_active matches Some(a) && a.card.id == id
}

pub fn find_my_pokemon<'a>(view: &'a GameView, id: CardInstanceId) -> (r: Option<&'a PokemonView>)
    ensures
        r is Some == my_pokemon(*view, id) is Some,
        r matches Some(p) ==> *p == my_pokemon(*view, id).unwrap(),
{
    if let Some(active) = &view.my_active {
        if active.card.id == id {
            return Some(active);
        }
    }
    find_in(&view.my_bench, id)
}

pub fn find_opponent_pokemon<'a>(view: &'a GameView, id: CardInstanceId) -> (r: Option<&'a PokemonView>)
    ensures
        r is Some == opponent_pokemon(*view, id) is Some,
        r matches Some(p) ==> *p == opponent_pokemon(*view, id).unwrap(),
{
    if let Some(active) = &view.opponent_active {
        if active.card.id == id {
            return Some(active);
        }
    }
    find_in(&view.opponent_bench, id)
}

pub fn is_my_active(view: &GameView, id: CardInstanceId) -> (r: bool)
    ensures
        r == is_active_id(*view, id),
{
    match &view.my_active {
        Some(active) => active.card.id == id,
        None => false,
    }
}

/// The number of energy cards attached to the player's Pokémon with that id
/// (zero when there is none).
pub open spec fn energy_on(view: GameView, id: CardInstanceId) -> int {
    match my_pokemon(view, id) {
        Some(p) => p.attached_energy@.len() as int,
        None => 0,
    }
}

pub fn attached_energy_count_on(view: &GameView, id: CardInstanceId) -> (r: usize)
    ensures
        r == energy_on(*view, id),
{
    match find_my_pokemon(view, id) {
        Some(p) => p.attached_energy.len(),
        None => 0,
    }
}

// ---------------------------------------------------------------- lists

pub fn contains_id(ids: &Vec<CardInstanceId>, id: CardInstanceId) -> (r: bool)
    ensures
        r == ids@.contains(id),
{
    let mut i: usize = 0;
    while i < ids.len()
        invariant
            i <= ids.len(),
            forall|k: int| 0 <= k < i ==> ids@[k] != id,
        decreases ids.len() - i,
    {
        if ids[i] == id {
            return true;
        }
        i = i + 1;
    }
    false
}

pub fn contains_type(types: &Vec<Type>, t: Type) -> (r: bool)
    ensures
        r == types@.contains(t),
{
    let mut i: usize = 0;
    while i < types.len()
        invariant
            i <= types.len(),
            forall|k: int| 0 <= k < i ==> types@[k] != t,
        decreases types.len() - i,
    {
        if types[i] == t {
            return true;
        }
        i = i + 1;
    }
    false
}

/// `r` holds `n` of the elements of `pool`, none more often than in `pool`.
pub open spec fn picks_from(r: Seq<CardInstanceId>, pool: Seq<CardInstanceId>, n: int) -> bool {
    &&& r.len() == n
    &&& r.to_multiset().subset_of(pool.to_multiset())
}

/// A prefix holds no element more often than the whole sequence.
pub proof fn lemma_take_subset<T>(s: Seq<T>, n: int)
    requires
        0 <= n <= s.len(),
    ensures
        s.take(n).to_multiset().subset_of(s.to_multiset()),
{
    broadcast use vstd::multiset::group_multiset_axioms;
    vstd::seq_lib::lemma_multiset_commutative(s.take(n), s.skip(n));
    assert(s.take(n) + s.skip(n) =~= s);
}

/// `min(k, options.len())` of the options, in a random order.
pub fn choose_k(options: &Vec<CardInstanceId>, k: usize, rng: &mut ChaCha8Rng) -> (r: Vec<CardInstanceId>)
    ensures
        picks_from(r@, options@, if k <= options@.len() { k as int } else { options@.len() as int }),
{
    let mut ids = copy_ids(options);
    shuffle(&mut ids, rng);
    let ghost shuffled = ids@;
    if k < ids.len() {
        ids.truncate(k);
        proof {
            lemma_take_subset(shuffled, k as int);
        }
    }
    ids
}

/// One of the options at random, `None` when there are none.
pub fn choose_id(options: &Vec<CardInstanceId>, rng: &mut ChaCha8Rng) -> (r: Option<CardInstanceId>)
    ensures
        r is None <==> options@.len() == 0,
        r matches Some(x) ==> options@.contains(x),
{
    choose_one(options.as_slice(), rng)
}

/// The ids of the Pokémon of `s`.
pub open spec fn ids_of_pokemon(s: Seq<PokemonView>) -> Seq<CardInstanceId> {
    s.map_values(|p: PokemonView| p.card.id)
}

pub fn bench_ids(bench: &Vec<PokemonView>) -> (r: Vec<CardInstanceId>)
    ensures
        r@ == ids_of_pokemon(bench@),
{
    let mut r: Vec<CardInstanceId> = Vec::new();
    let mut i: usize = 0;
    while i < bench.len()
        invariant
            i <= bench.len(),
            r@ == ids_of_pokemon(bench@).take(i as int),
        decreases bench.len() - i,
    {
        r.push(bench[i].card.id);
        i = i + 1;
        assert(r@ =~= ids_of_pokemon(bench@).take(i as int));
    }
    assert(ids_of_pokemon(bench@).take(i as int) =~= ids_of_pokemon(bench@));
    r
}

/// The card ids of `cards`.
pub open spec fn ids_of_cards(s: Seq<CardInstance>) -> Seq<CardInstanceId> {
    s.map_values(|c: CardInstance| c.id)
}

pub fn card_ids(cards: &Vec<CardInstance>) -> (r: Vec<CardInstanceId>)
    ensures
        r@ == ids_of_cards(cards@),
{
    let mut r: Vec<CardInstanceId> = Vec::new();
    let mut i: usize = 0;
    while i < cards.len()
        invariant
            i <= cards.len(),
            r@ == ids_of_cards(cards@).take(i as int),
        decreases cards.len() - i,
    {
        r.push(cards[i].id);
        i = i + 1;
        assert(r@ =~= ids_of_cards(cards@).take(i as int));
    }
    assert(ids_of_cards(cards@).take(i as int) =~= ids_of_cards(cards@));
    r
}

/// The elements of `ids` that also occur in `allowed`, in order.
pub open spec fn keep_allowed(ids: Seq<CardInstanceId>, allowed: Seq<CardInstanceId>) -> Seq<CardInstanceId> {
    ids.filter(|x: CardInstanceId| allowed.contains(x))
}

pub fn filter_allowed(ids: &Vec<CardInstanceId>, allowed: &Vec<CardInstanceId>) -> (r: Vec<CardInstanceId>)
    ensures
        r@ == keep_allowed(ids@, allowed@),
{
    let mut r: Vec<CardInstanceId> = Vec::new();
    let mut i: usize = 0;
    while i < ids.len()
        invariant
            i <= ids.len(),
            r@ == keep_allowed(ids@.take(i as int), allowed@),
        decreases ids.len() - i,
    {
        let x = ids[i];
        let keep = contains_id(allowed, x);
        proof {
            assert(ids@.take(i + 1) =~= ids@.take(i as int).push(x));
            ids@.take(i as int).lemma_filter_push(x, |x: CardInstanceId| allowed@.contains(x));
        }
        if keep {
            r.push(x);
        }
        i = i + 1;
    }
    assert(ids@.take(i as int) =~= ids@);
    r
}

// ---------------------------------------------------------------- matchups

/// How well `p` fares against the opponent's active Pokémon: 25 per point of
/// its weakness multiplier when `p` has that type, less 15 when `p` has the
/// type it resists, less 20 when it has the type `p` is weak to.
pub open spec fn matchup(p: PokemonView, opponent: Option<PokemonView>) -> int {
    match opponent {
        None => 0,
        Some(o) => {
            (match o.weakness {
                Some(w) if p.types@.contains(w.type_) => 25 * w.multiplier,
                _ => 0,
            }) + (match o.resistance {
                Some(r) if p.types@.contains(r.type_) => -15int,
                _ => 0,
            }) + (match p.weakness {
                Some(w) if o.types@.contains(w.type_) => -20int,
                _ => 0,
            })
        },
    }
}

pub fn matchup_score_against_active(p: &PokemonView, opponent: Option<&PokemonView>) -> (r: i32)
    ensures
        r == matchup(*p, match opponent { Some(o) => Some(*o), None => None }),
        -35 <= r <= 6375,
{
    let mut score: i32 = 0;
    if let Some(o) = opponent {
        if let Some(w) = &o.weakness {
            if contains_type(&p.types, w.type_) {
                score = score + 25 * w.multiplier as i32;
            }
        }
        if let Some(res) = &o.resistance {
            if contains_type(&p.types, res.type_) {
                score = score - 15;
            }
        }
        if let Some(w) = &p.weakness {
            if contains_type(&o.types, w.type_) {
                score = score - 20;
            }
        }
    }
    score
}

pub open spec fn opt_ref(o: Option<&PokemonView>) -> Option<PokemonView> {
    match o {
        Some(p) => Some(*p),
        None => None,
    }
}

// ---------------------------------------------------------------- attacks

/// An attack's damage after the defender's weakness (multiplied) and
/// resistance (subtracted, not below zero).
pub open spec fn expected_damage(a: AttackValue, defender: Option<PokemonView>) -> int {
    match defender {
        None => a.damage as int,
        Some(d) => {
            let weak = match d.weakness {
                Some(w) if w.type_ == a.attack_type => a.damage * w.multiplier,
                _ => a.damage as int,
            };
            match d.resistance {
                Some(r) if r.type_ == a.attack_type => if weak - r.value < 0 { 0 } else { weak - r.value },
                _ => weak,
            }
        },
    }
}

pub fn expected_damage_vs(attack: &Attack, defender: Option<&PokemonView>) -> (r: i32)
    ensures
        r == expected_damage(attack@, opt_ref(defender)),
        0 <= r <= 65535 * 255,
{
    let mut damage: i32 = attack.damage as i32;
    if let Some(d) = defender {
        if let Some(w) = &d.weakness {
            if w.type_ == attack.attack_type {
                assert(0 <= damage * (w.multiplier as i32) <= 65535 * 255) by (nonlinear_arith)
                    requires
                        0 <= damage <= 65535,
                        0 <= w.multiplier <= 255,
                ;
                damage = damage * w.multiplier as i32;
            }
        }
        if let Some(res) = &d.resistance {
            if res.type_ == attack.attack_type {
                damage = damage - res.value as i32;
                if damage < 0 {
                    damage = 0;
                }
            }
        }
    }
    damage
}

/// The value of an attack against the defender: 100 per point of expected
/// damage, less `cost_weight` per energy of its cost, 250 more when it has an
/// effect, 100000 more when it knocks the defender out and `ex_bonus` more
/// when the defender is a Pokémon-ex.
pub open spec fn attack_value(a: AttackValue, defender: Option<PokemonView>, cost_weight: int, ex_bonus: int) -> int {
    let dmg = expected_damage(a, defender);
    dmg * 100 - a.total_energy * cost_weight + (if a.effect is Some { 250int } else { 0 }) + match defender {
        Some(d) => (if dmg >= remaining(d) { 100000int } else { 0 }) + (if d.is_ex { ex_bonus } else { 0 }),
        None => 0,
    }
}

pub fn attack_score(attack: &Attack, defender: Option<&PokemonView>, cost_weight: i64, ex_bonus: i64) -> (r: i64)
    requires
        0 <= cost_weight <= 100,
        0 <= ex_bonus <= 1000,
    ensures
        r == attack_value(attack@, opt_ref(defender), cost_weight as int, ex_bonus as int),
{
    let expected = expected_damage_vs(attack, defender) as i64;
    let cost = attack.cost.total_energy as i64;
    assert(0 <= cost * cost_weight <= 65535 * 100) by (nonlinear_arith)
        requires
            0 <= cost <= 65535,
            0 <= cost_weight <= 100,
    ;
    let effect_bonus: i64 = if attack.effect_ast.is_some() { 250 } else { 0 };
    let mut score = expected * 100 - cost * cost_weight + effect_bonus;
    if let Some(d) = defender {
        let rem = remaining_hp(d) as i64;
        if expected >= rem {
            score = score + 100_000;
        }
        if d.is_ex {
            score = score + ex_bonus;
        }
    }
    score
}

/// `a` comes before `b` in the lexicographic order of code points.
pub open spec fn lex_lt(a: Seq<char>, b: Seq<char>) -> bool
    decreases a.len(),
{
    if a.len() == 0 {
        b.len() > 0
    } else if b.len() == 0 {
        false
    } else if a[0] != b[0] {
        (a[0] as int) < (b[0] as int)
    } else {
        lex_lt(a.drop_first(), b.drop_first())
    }
}

/// No string comes before itself.
pub proof fn lemma_lex_lt_irreflexive(a: Seq<char>)
    ensures
        !lex_lt(a, a),
    decreases a.len(),
{
    if a.len() > 0 {
        lemma_lex_lt_irreflexive(a.drop_first());
    }
}

/// Character order is transitive.
pub proof fn lemma_lex_lt_transitive(a: Seq<char>, b: Seq<char>, c: Seq<char>)
    requires
        lex_lt(a, b),
        lex_lt(b, c),
    ensures
        lex_lt(a, c),
    decreases a.len(),
{
    if a.len() > 0 && b.len() > 0 && c.len() > 0 && a[0] == b[0] && b[0] == c[0] {
        lemma_lex_lt_transitive(a.drop_first(), b.drop_first(), c.drop_first());
    }
}

/// Of two different strings one comes before the other.
pub proof fn lemma_lex_lt_total(a: Seq<char>, b: Seq<char>)
    ensures
        a =~= b || lex_lt(a, b) || lex_lt(b, a),
    decreases a.len(),
{
    if a.len() > 0 && b.len() > 0 && a[0] == b[0] {
        lemma_lex_lt_total(a.drop_first(), b.drop_first());
        if a.drop_first() =~= b.drop_first() {
            assert(a =~= seq![a[0]] + a.drop_first());
            assert(b =~= seq![b[0]] + b.drop_first());
        }
    } else if a.len() > 0 && b.len() > 0 {
        assert((a[0] as int) != (b[0] as int));
    }
}

/// Whether `a` sorts strictly before `b` (by code points, as `String`'s order does).
pub fn string_lt(a: &String, b: &String) -> (r: bool)
    ensures
        r == lex_lt(a@, b@),
{
    let sa = a.as_str();
    let sb = b.as_str();
    let la = sa.unicode_len();
    let lb = sb.unicode_len();
    let mut i: usize = 0;
    while i < la && i < lb
        invariant
            la == a@.len(),
            lb == b@.len(),
            sa@ == a@,
            sb@ == b@,
            i <= la,
            i <= lb,
            lex_lt(a@, b@) == lex_lt(a@.skip(i as int), b@.skip(i as int)),
        decreases la - i,
    {
        let ca = sa.get_char(i);
        let cb = sb.get_char(i);
        proof {
            assert(a@.skip(i as int)[0] == ca);
            assert(b@.skip(i as int)[0] == cb);
            assert(a@.skip(i as int).drop_first() =~= a@.skip(i + 1));
            assert(b@.skip(i as int).drop_first() =~= b@.skip(i + 1));
        }
        if ca != cb {
            return (ca as u32) < (cb as u32);
        }
        i = i + 1;
    }
    i < lb
}

/// `a` is preferred over `b`: higher value, then less damage, then lower
/// total cost, then fewer typed cost symbols, then the later name.
pub open spec fn beats(a: AttackValue, b: AttackValue, d: Option<PokemonView>, cw: int, eb: int) -> bool {
    let sa = attack_value(a, d, cw, eb);
    let sb = attack_value(b, d, cw, eb);
    sa > sb || (sa == sb && (a.damage < b.damage || (a.damage == b.damage && (a.total_energy
        < b.total_energy || (a.total_energy == b.total_energy && (a.cost_types.len()
        < b.cost_types.len() || (a.cost_types.len() == b.cost_types.len() && lex_lt(
        b.name,
        a.name,
    ))))))))
}

/// The index of the preferred attack among the first `n`: the last one that
/// no other beats (an earlier one is kept only while it beats the newcomer).
pub open spec fn best_attack_index(s: Seq<Attack>, n: int, d: Option<PokemonView>, cw: int, eb: int) -> int
    decreases n,
{
    if n <= 1 {
        0
    } else {
        let b = best_attack_index(s, n - 1, d, cw, eb);
        if beats(s[b]@, s[n - 1]@, d, cw, eb) { b } else { n - 1 }
    }
}

/// The preferred attack index is one of the first `n`.
pub proof fn lemma_best_attack_index_range(s: Seq<Attack>, n: int, d: Option<PokemonView>, cw: int, eb: int)
    requires
        1 <= n,
    ensures
        0 <= best_attack_index(s, n, d, cw, eb) < n,
    decreases n,
{
    if n > 1 {
        lemma_best_attack_index_range(s, n - 1, d, cw, eb);
    }
}

proof fn lemma_beats_transitive(a: AttackValue, b: AttackValue, c: AttackValue, d: Option<PokemonView>, cw: int, eb: int)
    requires
        beats(a, b, d, cw, eb),
        beats(b, c, d, cw, eb),
    ensures
        beats(a, c, d, cw, eb),
{
    if attack_value(a, d, cw, eb) == attack_value(c, d, cw, eb) && a.damage == c.damage && a.total_energy == c.total_energy && a.cost_types.len() == c.cost_types.len() {
        lemma_lex_lt_transitive(c.name, b.name, a.name);
    }
}

proof fn lemma_not_beats_total(a: AttackValue, b: AttackValue, d: Option<PokemonView>, cw: int, eb: int)
    requires
        !beats(a, b, d, cw, eb),
    ensures
        !beats(b, a, d, cw, eb) ==> a.name =~= b.name,
{
    lemma_lex_lt_total(a.name, b.name);
}

/// An attack's effect is worth exactly 250: of two attacks with the same
/// damage, type and cost, the one with an effect scores 250 more than the one
/// without, against any defender and with any weights.
pub proof fn lemma_effect_worth_250(a: AttackValue, b: AttackValue, d: Option<PokemonView>, cw: int, eb: int)
    requires
        a.damage == b.damage,
        a.attack_type == b.attack_type,
        a.total_energy == b.total_energy,
        a.effect is Some,
        b.effect is None,
    ensures
        attack_value(a, d, cw, eb) == attack_value(b, d, cw, eb) + 250,
{
}

/// The preferred attack is never a plain attack when an attack with the same
/// damage, type and cost but with an effect is among the choices.
pub proof fn lemma_best_attack_prefers_effect(s: Seq<Attack>, n: int, d: Option<PokemonView>, cw: int, eb: int)
    requires
        1 <= n <= s.len(),
    ensures
        forall|i: int, j: int|
            0 <= i < n && 0 <= j < n && (#[trigger] s[i])@.effect is Some && (#[trigger] s[j])@.effect is None
                && s[i]@.damage == s[j]@.damage && s[i]@.attack_type == s[j]@.attack_type
                && s[i]@.total_energy == s[j]@.total_energy
                ==> s[best_attack_index(s, n, d, cw, eb)]@ != s[j]@,
{
    lemma_best_attack_is_maximal(s, n, d, cw, eb);
    let b = best_attack_index(s, n, d, cw, eb);
    assert forall|i: int, j: int|
        0 <= i < n && 0 <= j < n && (#[trigger] s[i])@.effect is Some && (#[trigger] s[j])@.effect is None
            && s[i]@.damage == s[j]@.damage && s[i]@.attack_type == s[j]@.attack_type
            && s[i]@.total_energy == s[j]@.total_energy
        implies s[b]@ != s[j]@ by {
        lemma_effect_worth_250(s[i]@, s[j]@, d, cw, eb);
        if s[b]@ == s[j]@ {
            assert(beats(s[i]@, s[b]@, d, cw, eb));
        }
    }
}

/// No attack among the first `n` beats the preferred one.
pub proof fn lemma_best_attack_is_maximal(s: Seq<Attack>, n: int, d: Option<PokemonView>, cw: int, eb: int)
    requires
        1 <= n <= s.len(),
    ensures
        forall|j: int| 0 <= j < n ==> !beats(#[trigger] s[j]@, s[best_attack_index(s, n, d, cw, eb)]@, d, cw, eb),
    decreases n,
{
    lemma_best_attack_index_range(s, n, d, cw, eb);
    let bi = best_attack_index(s, n, d, cw, eb);
    if n == 1 {
        lemma_lex_lt_irreflexive(s[0]@.name);
    } else {
        lemma_best_attack_is_maximal(s, n - 1, d, cw, eb);
        let b = best_attack_index(s, n - 1, d, cw, eb);
        lemma_best_attack_index_range(s, n - 1, d, cw, eb);
        assert forall|j: int| 0 <= j < n implies !beats(#[trigger] s[j]@, s[bi]@, d, cw, eb) by {
            if beats(s[b]@, s[n - 1]@, d, cw, eb) {
                if j == n - 1 {
                    if beats(s[j]@, s[b]@, d, cw, eb) {
                        lemma_beats_transitive(s[j]@, s[b]@, s[j]@, d, cw, eb);
                        lemma_lex_lt_irreflexive(s[j]@.name);
                    }
                }
            } else {
                if j < n - 1 && beats(s[j]@, s[n - 1]@, d, cw, eb) {
                    // s[j] does not beat s[b]; s[b] does not beat s[n-1]
                    lemma_not_beats_total(s[b]@, s[n - 1]@, d, cw, eb);
                    if beats(s[n - 1]@, s[b]@, d, cw, eb) {
                        lemma_beats_transitive(s[j]@, s[n - 1]@, s[b]@, d, cw, eb);
                    } else {
                        assert(s[b]@.name =~= s[n - 1]@.name);
                    }
                }
                if j == n - 1 {
                    lemma_lex_lt_irreflexive(s[j]@.name);
                }
            }
        }
    }
}

/// The preferred attack of `attacks` against the opponent's active Pokémon,
/// valued with the given cost weight and Pokémon-ex bonus.
pub fn best_attack_for_view(view: &GameView, attacks: &Vec<Attack>, cost_weight: i64, ex_bonus: i64) -> (r: Option<Attack>)
    requires
        0 <= cost_weight <= 100,
        0 <= ex_bonus <= 1000,
    ensures
        r is None <==> attacks@.len() == 0,
        r matches Some(a) ==> a@ == attacks@[best_attack_index(
            attacks@,
            attacks@.len() as int,
            view.opponent_active,
            cost_weight as int,
            ex_bonus as int,
        )]@,
{
    if attacks.len() == 0 {
        return None;
    }
    let defender = view.opponent_active.as_ref();
    let ghost d = view.opponent_active;
    let mut best: usize = 0;
    let mut best_score = attack_score(&attacks[0], defender, cost_weight, ex_bonus);
    let mut i: usize = 1;
    while i < attacks.len()
        invariant
            1 <= i <= attacks.len(),
            opt_ref(defender) == d,
            0 <= cost_weight <= 100,
            0 <= ex_bonus <= 1000,
            best == best_attack_index(attacks@, i as int, d, cost_weight as int, ex_bonus as int),
            best < i,
            best_score == attack_value(attacks@[best as int]@, d, cost_weight as int, ex_bonus as int),
        decreases attacks.len() - i,
    {
        let a = &attacks[best];
        let b = &attacks[i];
        let score = attack_score(b, defender, cost_weight, ex_bonus);
        let a_beats = best_score > score || (best_score == score && (a.damage < b.damage || (a.damage
            == b.damage && (a.cost.total_energy < b.cost.total_energy || (a.cost.total_energy
            == b.cost.total_energy && (a.cost.types.len() < b.cost.types.len() || (
        a.cost.types.len() == b.cost.types.len() && string_lt(&b.name, &a.name))))))));
        if !a_beats {
            best = i;
            best_score = score;
        }
        i = i + 1;
    }
    Some(copy_attack(&attacks[best]))
}


// ---------------------------------------------------------------- bounds

/// A Pokémon carries fewer than 2^31 energy cards and special conditions:
/// the heuristics read these counts as `i32`, which holds exactly these.
pub open spec fn energy_bounded(p: PokemonView) -> bool {
    p.attached_energy@.len() < 0x8000_0000 && p.special_conditions@.len() < 0x8000_0000
}

pub open spec fn all_bounded(s: Seq<PokemonView>) -> bool {
    forall|i: int| 0 <= i < s.len() ==> energy_bounded(#[trigger] s[i])
}

/// Every Pokémon in the view carries fewer than 2^31 energy cards and special conditions.
pub open spec fn view_bounded(v: GameView) -> bool {
    &&& (v.my_active matches Some(a) ==> energy_bounded(a))
    &&& all_bounded(v.my_bench@)
    &&& (v.opponent_active matches Some(a) ==> energy_bounded(a))
    &&& all_bounded(v.opponent_bench@)
}

fn all_bounded_exec(s: &Vec<PokemonView>) -> (r: bool)
    ensures
        r == all_bounded(s@),
{
    let mut i: usize = 0;
    while i < s.len()
        invariant
            i <= s@.len(),
            forall|k: int| 0 <= k < i ==> energy_bounded(#[trigger] s@[k]),
        decreases s@.len() - i,
    {
        if !(s[i].attached_energy.len() < 0x8000_0000 && s[i].special_conditions.len() < 0x8000_0000) {
            return false;
        }
        i = i + 1;
    }
    true
}

fn opt_bounded(p: &Option<PokemonView>) -> (r: bool)
    ensures
        r == (*p matches Some(a) ==> energy_bounded(a)),
{
    match p {
        Some(a) => a.attached_energy.len() < 0x8000_0000 && a.special_conditions.len() < 0x8000_0000,
        None => true,
    }
}

/// Whether every Pokémon of the view carries fewer than 2^31 energy cards and
/// special conditions (see `view_bounded`).
pub fn view_is_bounded(v: &GameView) -> (r: bool)
    ensures
        r == view_bounded(*v),
{
    opt_bounded(&v.my_active) && all_bounded_exec(&v.my_bench) && opt_bounded(&v.opponent_active) && all_bounded_exec(&v.opponent_bench)
}


/// The Pokémon found by id is one of the sequence and carries that id.
pub proof fn lemma_first_with_id_in(s: Seq<PokemonView>, id: CardInstanceId)
    ensures
        first_with_id(s, id) matches Some(p) ==> s.contains(p) && p.card.id == id,
    decreases s.len(),
{
    if s.len() > 0 && s[0].card.id != id {
        lemma_first_with_id_in(s.drop_first(), id);
        if let Some(p) = first_with_id(s.drop_first(), id) {
            let k = choose|k: int| 0 <= k < s.drop_first().len() && s.drop_first()[k] == p;
            assert(s[k + 1] == p);
        }
    } else if s.len() > 0 {
        assert(s[0] == s[0]);
    }
}

/// A Pokémon found by id in a bounded view is itself bounded.
pub proof fn lemma_my_pokemon_bounded(v: GameView, id: CardInstanceId)
    requires
        view_bounded(v),
    ensures
        my_pokemon(v, id) matches Some(p) ==> energy_bounded(p) && p.card.id == id,
        opponent_pokemon(v, id) matches Some(p) ==> energy_bounded(p) && p.card.id == id,
{
    lemma_first_with_id_in(v.my_bench@, id);
    lemma_first_with_id_in(v.opponent_bench@, id);
}

// ---------------------------------------------------------------- orders

/// `p` lists each of `0..n` once, in some order.
pub open spec fn is_order(p: Seq<usize>, n: int) -> bool {
    p.len() == n && p.to_multiset() == Seq::new(n as nat, |i: int| i as usize).to_multiset()
}

/// A random order of `0..n`.
pub fn shuffled_order(n: usize, rng: &mut ChaCha8Rng) -> (r: Vec<usize>)
    ensures
        is_order(r@, n as int),
        forall|k: int| 0 <= k < r@.len() ==> #[trigger] r@[k] < n,
{
    let mut order: Vec<usize> = Vec::new();
    let mut i: usize = 0;
    while i < n
        invariant
            i <= n,
            order@ == Seq::new(i as nat, |k: int| k as usize),
        decreases n - i,
    {
        order.push(i);
        i = i + 1;
        assert(order@ =~= Seq::new(i as nat, |k: int| k as usize));
    }
    let ghost before = order@;
    shuffle(&mut order, rng);
    proof {
        assert forall|k: int| 0 <= k < order@.len() implies #[trigger] order@[k] < n by {
            let x = order@[k];
            vstd::seq_lib::to_multiset_contains(order@, x);
            assert(order@.contains(x));
            vstd::seq_lib::to_multiset_contains(before, x);
            let j = choose|j: int| 0 <= j < before.len() && before[j] == x;
        }
    }
    order
}

/// A random permutation of `ids`.
pub fn shuffled_ids(ids: &Vec<CardInstanceId>, rng: &mut ChaCha8Rng) -> (r: Vec<CardInstanceId>)
    ensures
        r@.len() == ids@.len(),
        r@.to_multiset() == ids@.to_multiset(),
{
    let mut v = copy_ids(ids);
    shuffle(&mut v, rng);
    v
}

} // verus!
