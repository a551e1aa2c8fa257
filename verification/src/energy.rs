//! Energy cards: the type an energy card provides, the energy a Pokémon
//! carries, and the energy an attack still lacks.
use vstd::prelude::*;
use crate::model::{Attack, AttackValue, CardInstance, CardInstanceId, GameView, PokemonView, Type};
use crate::scoring::{my_pokemon, is_active_id, find_my_pokemon, is_my_active, contains_type};
use crate::rng::choose_one;
use rand_chacha::ChaCha8Rng;

verus! {

broadcast use vstd::seq_lib::group_seq_properties;

// ---------------------------------------------------------------- names

/// ASCII upper case of one character; other characters are kept.
pub open spec fn ascii_upper(c: char) -> char {
    if 97 <= (c as int) <= 122 { ((c as int) - 32) as char } else { c }
}

pub open spec fn upper(s: Seq<char>) -> Seq<char> {
    s.map_values(|c: char| ascii_upper(c))
}

/// The name without its leading `ENERGY-`, when it has one.
pub open spec fn strip_energy_prefix(s: Seq<char>) -> Seq<char> {
    if s.len() >= "ENERGY-"@.len() && s.take("ENERGY-"@.len() as int) == "ENERGY-"@ {
        s.skip("ENERGY-"@.len() as int)
    } else {
        s
    }
}

/// The type an upper-case energy name stands for.
pub open spec fn type_named(s: Seq<char>) -> Option<Type> {
    if s == "GRASS"@ {
        Some(Type::Grass)
    } else if s == "FIRE"@ {
        Some(Type::Fire)
    } else if s == "WATER"@ {
        Some(Type::Water)
    } else if s == "LIGHTNING"@ {
        Some(Type::Lightning)
    } else if s == "PSYCHIC"@ {
        Some(Type::Psychic)
    } else if s == "FIGHTING"@ {
        Some(Type::Fighting)
    } else if s == "DARKNESS"@ || s == "DARK"@ {
        Some(Type::Darkness)
    } else if s == "METAL"@ {
        Some(Type::Metal)
    } else if s == "COLORLESS"@ || s == "DOUBLECOLORLESS"@ || s == "DOUBLE_COLORLESS"@ {
        Some(Type::Colorless)
    } else {
        None
    }
}

/// The type named by an energy card definition id, case-insensitively and with
/// or without the `ENERGY-` prefix.
pub open spec fn energy_type_of_id(s: Seq<char>) -> Option<Type> {
    type_named(strip_energy_prefix(upper(s)))
}

/// The type an energy card provides: read from its normalised energy id when
/// it has one, else from its definition id.
pub open spec fn energy_card_type(c: CardInstance) -> Option<Type> {
    match c.energy_id {
        Some(n) => energy_type_of_id(n@),
        None => energy_type_of_id(c.def_id@),
    }
}

fn upper_chars(s: &str) -> (r: Vec<char>)
    ensures
        r@ == upper(s@),
{
    let n = s.unicode_len();
    let mut r: Vec<char> = Vec::new();
    let mut i: usize = 0;
    while i < n
        invariant
            n == s@.len(),
            i <= n,
            r@ == upper(s@).take(i as int),
        decreases n - i,
    {
        let c = s.get_char(i);
        let code = c as u32;
        let u = if 97 <= code && code <= 122 { ((code - 32) as u8) as char } else { c };
        r.push(u);
        i = i + 1;
        assert(r@ =~= upper(s@).take(i as int));
    }
    assert(upper(s@).take(i as int) =~= upper(s@));
    r
}

/// Whether the characters of `v` from `start` on spell `lit`.
fn rest_is(v: &Vec<char>, start: usize, lit: &str) -> (r: bool)
    requires
        start <= v@.len(),
    ensures
        r == (v@.skip(start as int) == lit@),
{
    let n = lit.unicode_len();
    if v.len() - start != n {
        proof {
            assert(v@.skip(start as int).len() != lit@.len());
        }
        return false;
    }
    let mut i: usize = 0;
    while i < n
        invariant
            n == lit@.len(),
            start + n == v@.len(),
            v@.len() == v.len(),
            i <= n,
            forall|k: int| 0 <= k < i ==> v@[start + k] == lit@[k],
        decreases n - i,
    {
        if v[start + i] != lit.get_char(i) {
            proof {
                assert(v@.skip(start as int)[i as int] != lit@[i as int]);
            }
            return false;
        }
        i = i + 1;
    }
    assert(v@.skip(start as int) =~= lit@);
    true
}

/// Whether `v` begins with the characters of `lit`.
fn starts_with_lit(v: &Vec<char>, lit: &str) -> (r: bool)
    ensures
        r == (v@.len() >= lit@.len() && v@.take(lit@.len() as int) == lit@),
{
    let n = lit.unicode_len();
    if v.len() < n {
        return false;
    }
    let mut i: usize = 0;
    while i < n
        invariant
            n == lit@.len(),
            n <= v@.len(),
            i <= n,
            forall|k: int| 0 <= k < i ==> v@[k] == lit@[k],
        decreases n - i,
    {
        if v[i] != lit.get_char(i) {
            proof {
                assert(v@.take(n as int)[i as int] != lit@[i as int]);
            }
            return false;
        }
        i = i + 1;
    }
    assert(v@.take(n as int) =~= lit@);
    true
}

/// Whether `s` begins with the characters of `lit`.
pub fn str_starts_with(s: &str, lit: &str) -> (r: bool)
    ensures
        r == (s@.len() >= lit@.len() && s@.take(lit@.len() as int) == lit@),
{
    let n = lit.unicode_len();
    let m = s.unicode_len();
    if m < n {
        return false;
    }
    let mut i: usize = 0;
    while i < n
        invariant
            n == lit@.len(),
            m == s@.len(),
            n <= m,
            i <= n,
            forall|k: int| 0 <= k < i ==> s@[k] == lit@[k],
        decreases n - i,
    {
        if s.get_char(i) != lit.get_char(i) {
            proof {
                assert(s@.take(n as int)[i as int] != lit@[i as int]);
            }
            return false;
        }
        i = i + 1;
    }
    assert(s@.take(n as int) =~= lit@);
    true
}

/// The energy type an energy card definition id names.
pub fn energy_type_from_def_id(def_id: &str) -> (r: Option<Type>)
    ensures
        r == energy_type_of_id(def_id@),
{
    let u = upper_chars(def_id);
    let prefix = "ENERGY-";
    let start: usize = if starts_with_lit(&u, prefix) { prefix.unicode_len() } else { 0 };
    assert(u@.skip(start as int) == strip_energy_prefix(upper(def_id@))) by {
        if start == 0 {
            assert(u@.skip(0) =~= u@);
        }
    }
    if rest_is(&u, start, "GRASS") {
        Some(Type::Grass)
    } else if rest_is(&u, start, "FIRE") {
        Some(Type::Fire)
    } else if rest_is(&u, start, "WATER") {
        Some(Type::Water)
    } else if rest_is(&u, start, "LIGHTNING") {
        Some(Type::Lightning)
    } else if rest_is(&u, start, "PSYCHIC") {
        Some(Type::Psychic)
    } else if rest_is(&u, start, "FIGHTING") {
        Some(Type::Fighting)
    } else if rest_is(&u, start, "DARKNESS") || rest_is(&u, start, "DARK") {
        Some(Type::Darkness)
    } else if rest_is(&u, start, "METAL") {
        Some(Type::Metal)
    } else if rest_is(&u, start, "COLORLESS") || rest_is(&u, start, "DOUBLECOLORLESS") || rest_is(
        &u,
        start,
        "DOUBLE_COLORLESS",
    ) {
        Some(Type::Colorless)
    } else {
        None
    }
}

/// The energy type an energy card provides.
pub fn energy_type_from_card(card: &CardInstance) -> (r: Option<Type>)
    ensures
        r == energy_card_type(*card),
{
    match &card.energy_id {
        Some(n) => energy_type_from_def_id(n.as_str()),
        None => energy_type_from_def_id(card.def_id.as_str()),
    }
}

// ---------------------------------------------------------------- counts

/// The position of a type in the fixed order Grass, Fire, Water, Lightning,
/// Psychic, Fighting, Darkness, Metal, Colorless.
pub open spec fn type_pos(t: Type) -> int {
    match t {
        Type::Grass => 0,
        Type::Fire => 1,
        Type::Water => 2,
        Type::Lightning => 3,
        Type::Psychic => 4,
        Type::Fighting => 5,
        Type::Darkness => 6,
        Type::Metal => 7,
        Type::Colorless => 8,
    }
}

/// The type at a position of that order; positions past the end give Colorless.
pub open spec fn type_at(k: int) -> Type {
    if k == 0 {
        Type::Grass
    } else if k == 1 {
        Type::Fire
    } else if k == 2 {
        Type::Water
    } else if k == 3 {
        Type::Lightning
    } else if k == 4 {
        Type::Psychic
    } else if k == 5 {
        Type::Fighting
    } else if k == 6 {
        Type::Darkness
    } else if k == 7 {
        Type::Metal
    } else {
        Type::Colorless
    }
}

pub fn type_index(t: Type) -> (r: usize)
    ensures
        r == type_pos(t),
        r < 9,
        type_at(r as int) == t,
{
    match t {
        Type::Grass => 0,
        Type::Fire => 1,
        Type::Water => 2,
        Type::Lightning => 3,
        Type::Psychic => 4,
        Type::Fighting => 5,
        Type::Darkness => 6,
        Type::Metal => 7,
        Type::Colorless => 8,
    }
}

pub fn type_from_index(k: usize) -> (r: Type)
    ensures
        r == type_at(k as int),
{
    if k == 0 {
        Type::Grass
    } else if k == 1 {
        Type::Fire
    } else if k == 2 {
        Type::Water
    } else if k == 3 {
        Type::Lightning
    } else if k == 4 {
        Type::Psychic
    } else if k == 5 {
        Type::Fighting
    } else if k == 6 {
        Type::Darkness
    } else if k == 7 {
        Type::Metal
    } else {
        Type::Colorless
    }
}

/// How many of the energy cards provide the type at position `k`.
pub open spec fn cards_of_type(s: Seq<CardInstance>, k: int) -> int
    decreases s.len(),
{
    if s.len() == 0 {
        0
    } else {
        cards_of_type(s.drop_last(), k) + (if energy_card_type(s.last()) matches Some(t) && type_pos(t) == k { 1int } else { 0 })
    }
}

/// For each type position, how many of the attached energy cards provide it.
pub open spec fn energy_counts(s: Seq<CardInstance>) -> Seq<int> {
    Seq::new(9, |k: int| cards_of_type(s, k))
}

proof fn lemma_cards_of_type_bound(s: Seq<CardInstance>, k: int)
    ensures
        0 <= cards_of_type(s, k) <= s.len(),
    decreases s.len(),
{
    if s.len() > 0 {
        lemma_cards_of_type_bound(s.drop_last(), k);
    }
}

/// The attached energy of a Pokémon counted by type position.
pub fn attached_energy_type_counts(p: &PokemonView) -> (r: Vec<usize>)
    ensures
        r@.len() == 9,
        forall|k: int| 0 <= k < 9 ==> r@[k] == energy_counts(p.attached_energy@)[k],
{
    let mut counts: Vec<usize> = vec![0, 0, 0, 0, 0, 0, 0, 0, 0];
    let mut i: usize = 0;
    let ghost s = p.attached_energy@;
    while i < p.attached_energy.len()
        invariant
            s == p.attached_energy@,
            i <= s.len(),
            counts@.len() == 9,
            forall|k: int| 0 <= k < 9 ==> counts@[k] == cards_of_type(s.take(i as int), k),
        decreases s.len() - i,
    {
        let ty = energy_type_from_card(&p.attached_energy[i]);
        proof {
            assert(s.take(i + 1).drop_last() =~= s.take(i as int));
            assert(s.take(i + 1).last() == s[i as int]);
            assert forall|k: int| 0 <= k < 9 implies cards_of_type(s.take(i as int), k) <= i by {
                lemma_cards_of_type_bound(s.take(i as int), k);
            }
        }
        if let Some(t) = ty {
            let idx = type_index(t);
            let c = counts[idx];
            counts.set(idx, c + 1);
        }
        i = i + 1;
    }
    assert(s.take(i as int) =~= s);
    counts
}

/// How many symbols of the cost are of the type at position `k`.
pub open spec fn cost_of_type(s: Seq<Type>, k: int) -> int
    decreases s.len(),
{
    if s.len() == 0 {
        0
    } else {
        cost_of_type(s.drop_last(), k) + (if type_pos(s.last()) == k { 1int } else { 0 })
    }
}

proof fn lemma_cost_of_type_bound(s: Seq<Type>, k: int)
    ensures
        0 <= cost_of_type(s, k) <= s.len(),
    decreases s.len(),
{
    if s.len() > 0 {
        lemma_cost_of_type_bound(s.drop_last(), k);
    }
}

/// The energy still missing for a cost, given counts of attached energy by
/// type position: for each position in order, as many copies of its type as
/// the cost asks for beyond what is attached.
pub open spec fn missing_upto(cost: Seq<Type>, counts: Seq<int>, k: int) -> Seq<Type>
    decreases k,
{
    if k <= 0 {
        seq![]
    } else {
        let need = cost_of_type(cost, k - 1) - counts[k - 1];
        missing_upto(cost, counts, k - 1) + Seq::new(if need > 0 { need as nat } else { 0 }, |i: int| type_at(k - 1))
    }
}

pub open spec fn missing_types(cost: Seq<Type>, counts: Seq<int>) -> Seq<Type> {
    missing_upto(cost, counts, 9)
}

/// The energy types an attack still lacks on a Pokémon with the given counts.
pub fn missing_energy_types_for_attack(attack: &Attack, counts: &Vec<usize>) -> (r: Vec<Type>)
    requires
        counts@.len() == 9,
    ensures
        r@ == missing_types(attack@.cost_types, counts@.map_values(|c: usize| c as int)),
{
    let ghost cost = attack@.cost_types;
    let ghost cs = counts@.map_values(|c: usize| c as int);
    let mut req: Vec<usize> = vec![0, 0, 0, 0, 0, 0, 0, 0, 0];
    let mut i: usize = 0;
    while i < attack.cost.types.len()
        invariant
            cost == attack.cost.types@,
            i <= cost.len(),
            req@.len() == 9,
            forall|k: int| 0 <= k < 9 ==> req@[k] == cost_of_type(cost.take(i as int), k),
        decreases cost.len() - i,
    {
        proof {
            assert(cost.take(i + 1).drop_last() =~= cost.take(i as int));
            assert forall|k: int| 0 <= k < 9 implies cost_of_type(cost.take(i as int), k) <= i by {
                lemma_cost_of_type_bound(cost.take(i as int), k);
            }
        }
        let idx = type_index(attack.cost.types[i]);
        let c = req[idx];
        req.set(idx, c + 1);
        i = i + 1;
    }
    assert(cost.take(i as int) =~= cost);
    let mut missing: Vec<Type> = Vec::new();
    let mut idx: usize = 0;
    while idx < 9
        invariant
            idx <= 9,
            req@.len() == 9,
            counts@.len() == 9,
            cs == counts@.map_values(|c: usize| c as int),
            forall|k: int| 0 <= k < 9 ==> req@[k] == cost_of_type(cost, k),
            missing@ == missing_upto(cost, cs, idx as int),
        decreases 9 - idx,
    {
        let ghost before = missing@;
        if req[idx] > counts[idx] {
            let diff = req[idx] - counts[idx];
            let t = type_from_index(idx);
            let mut j: usize = 0;
            while j < diff
                invariant
                    j <= diff,
                    t == type_at(idx as int),
                    missing@ == before + Seq::new(j as nat, |i: int| type_at(idx as int)),
                decreases diff - j,
            {
                missing.push(t);
                j = j + 1;
                assert(missing@ =~= before + Seq::new(j as nat, |i: int| type_at(idx as int)));
            }
        }
        idx = idx + 1;
        assert(missing@ =~= missing_upto(cost, cs, idx as int));
    }
    missing
}

// ---------------------------------------------------------------- choosing energy

/// The first card of `s` with id `id`.
pub open spec fn first_card(s: Seq<CardInstance>, id: CardInstanceId) -> Option<CardInstance>
    decreases s.len(),
{
    if s.len() == 0 {
        None
    } else if s[0].id == id {
        Some(s[0])
    } else {
        first_card(s.drop_first(), id)
    }
}

proof fn lemma_first_card(s: Seq<CardInstance>, id: CardInstanceId, i: int)
    requires
        0 <= i <= s.len(),
        forall|k: int| 0 <= k < i ==> (#[trigger] s[k]).id != id,
    ensures
        i == s.len() ==> first_card(s, id) is None,
        i < s.len() && s[i].id == id ==> first_card(s, id) == Some(s[i]),
    decreases i,
{
    if i > 0 {
        assert forall|k: int| 0 <= k < i - 1 implies (#[trigger] s.drop_first()[k]).id != id by {
            assert(s.drop_first()[k] == s[k + 1]);
        }
        lemma_first_card(s.drop_first(), id, i - 1);
    }
}

pub fn find_card<'a>(s: &'a Vec<CardInstance>, id: CardInstanceId) -> (r: Option<&'a CardInstance>)
    ensures
        r is Some == first_card(s@, id) is Some,
        r matches Some(c) ==> *c == first_card(s@, id).unwrap(),
{
    let mut i: usize = 0;
    while i < s.len()
        invariant
            i <= s.len(),
            forall|k: int| 0 <= k < i ==> (#[trigger] s@[k]).id != id,
        decreases s.len() - i,
    {
        if s[i].id == id {
            proof {
                lemma_first_card(s@, id, i as int);
            }
            return Some(&s[i]);
        }
        i = i + 1;
    }
    proof {
        lemma_first_card(s@, id, i as int);
    }
    None
}

/// The playable energy cards that are in the hand, with the type each provides.
pub open spec fn candidates(ids: Seq<CardInstanceId>, hand: Seq<CardInstance>) -> Seq<(CardInstanceId, Option<Type>)>
    decreases ids.len(),
{
    if ids.len() == 0 {
        seq![]
    } else {
        let rest = candidates(ids.drop_last(), hand);
        match first_card(hand, ids.last()) {
            Some(c) => rest.push((ids.last(), energy_card_type(c))),
            None => rest,
        }
    }
}

pub fn energy_candidates(view: &GameView) -> (r: Vec<(CardInstanceId, Option<Type>)>)
    ensures
        r@ == candidates(view.action_hints.playable_energy_ids@, view.my_hand@),
{
    let ids = &view.action_hints.playable_energy_ids;
    let mut out: Vec<(CardInstanceId, Option<Type>)> = Vec::new();
    let mut i: usize = 0;
    while i < ids.len()
        invariant
            i <= ids@.len(),
            ids == &view.action_hints.playable_energy_ids,
            out@ == candidates(ids@.take(i as int), view.my_hand@),
        decreases ids.len() - i,
    {
        proof {
            assert(ids@.take(i + 1).drop_last() =~= ids@.take(i as int));
        }
        match find_card(&view.my_hand, ids[i]) {
            Some(card) => {
                out.push((ids[i], energy_type_from_card(card)));
            },
            None => {},
        }
        i = i + 1;
    }
    assert(ids@.take(i as int) =~= ids@);
    out
}

/// The energy types to favour for a target: what the preferred attack still
/// lacks when the target is the active Pokémon, else the target's own types.
pub open spec fn preferred_types(view: GameView, target: CardInstanceId, best: Option<AttackValue>) -> Seq<Type> {
    let counts = match my_pokemon(view, target) {
        Some(p) => energy_counts(p.attached_energy@),
        None => Seq::new(9, |k: int| 0int),
    };
    let missing = match best {
        Some(a) if is_active_id(view, target) => missing_types(a.cost_types, counts),
        _ => seq![],
    };
    if missing.len() > 0 {
        missing
    } else {
        match my_pokemon(view, target) {
            Some(p) => p.types@,
            None => seq![],
        }
    }
}

pub open spec fn cand_ids(c: Seq<(CardInstanceId, Option<Type>)>) -> Seq<CardInstanceId> {
    c.map_values(|x: (CardInstanceId, Option<Type>)| x.0)
}

pub open spec fn matching_ids(c: Seq<(CardInstanceId, Option<Type>)>, pref: Seq<Type>) -> Seq<CardInstanceId> {
    cand_ids(c.filter(|x: (CardInstanceId, Option<Type>)| x.1 matches Some(t) && pref.contains(t)))
}

pub open spec fn known_ids(c: Seq<(CardInstanceId, Option<Type>)>) -> Seq<CardInstanceId> {
    cand_ids(c.filter(|x: (CardInstanceId, Option<Type>)| x.1 is Some))
}

pub open spec fn unknown_ids(c: Seq<(CardInstanceId, Option<Type>)>) -> Seq<CardInstanceId> {
    cand_ids(c.filter(|x: (CardInstanceId, Option<Type>)| x.1 is None))
}

/// The energy to attach to `target`: `None` when no playable energy card is in
/// the hand; otherwise a random one among those of a favoured type, or, when
/// there are none, among those of a known type, or else among the rest.
pub open spec fn energy_choice_ok(view: GameView, target: CardInstanceId, best: Option<AttackValue>, r: Option<CardInstanceId>) -> bool {
    let c = candidates(view.action_hints.playable_energy_ids@, view.my_hand@);
    let m = matching_ids(c, preferred_types(view, target, best));
    let k = known_ids(c);
    let u = unknown_ids(c);
    &&& (r is None <==> c.len() == 0)
    &&& (r matches Some(x) ==> if m.len() > 0 {
        m.contains(x)
    } else if k.len() > 0 {
        k.contains(x)
    } else {
        u.contains(x)
    })
}

pub open spec fn opt_attack_view(a: Option<&Attack>) -> Option<AttackValue> {
    match a {
        Some(x) => Some(x@),
        None => None,
    }
}

pub fn choose_energy_for_target(
    view: &GameView,
    target_id: CardInstanceId,
    best_attack: Option<&Attack>,
    rng: &mut ChaCha8Rng,
) -> (r: Option<CardInstanceId>)
    ensures
        energy_choice_ok(*view, target_id, opt_attack_view(best_attack), r),
{
    let cands = energy_candidates(view);
    if cands.len() == 0 {
        return None;
    }
    let pokemon = find_my_pokemon(view, target_id);
    let counts: Vec<usize> = match pokemon {
        Some(p) => attached_energy_type_counts(p),
        None => vec![0, 0, 0, 0, 0, 0, 0, 0, 0],
    };
    let ghost spec_counts = match my_pokemon(*view, target_id) {
        Some(p) => energy_counts(p.attached_energy@),
        None => Seq::new(9, |k: int| 0int),
    };
    assert(counts@.map_values(|c: usize| c as int) =~= spec_counts);
    let mut preferred: Vec<Type> = Vec::new();
    if let Some(attack) = best_attack {
        if is_my_active(view, target_id) {
            preferred = missing_energy_types_for_attack(attack, &counts);
        }
    }
    if preferred.len() == 0 {
        if let Some(p) = pokemon {
            preferred = crate::model::copy_types(&p.types);
        }
    }
    let ghost pref = preferred_types(*view, target_id, opt_attack_view(best_attack));
    assert(preferred@ =~= pref);
    let ghost c = cands@;
    let mut matching: Vec<CardInstanceId> = Vec::new();
    let mut known: Vec<CardInstanceId> = Vec::new();
    let mut unknown: Vec<CardInstanceId> = Vec::new();
    let mut i: usize = 0;
    while i < cands.len()
        invariant
            c == cands@,
            i <= c.len(),
            preferred@ == pref,
            matching@ == matching_ids(c.take(i as int), pref),
            known@ == known_ids(c.take(i as int)),
            unknown@ == unknown_ids(c.take(i as int)),
        decreases c.len() - i,
    {
        let (id, ty) = cands[i];
        proof {
            let x = c[i as int];
            assert(c.take(i + 1) =~= c.take(i as int).push(x));
            c.take(i as int).lemma_filter_push(x, |x: (CardInstanceId, Option<Type>)| x.1 matches Some(t) && pref.contains(t));
            c.take(i as int).lemma_filter_push(x, |x: (CardInstanceId, Option<Type>)| x.1 is Some);
            c.take(i as int).lemma_filter_push(x, |x: (CardInstanceId, Option<Type>)| x.1 is None);
        }
        match ty {
            Some(t) => {
                known.push(id);
                if contains_type(&preferred, t) {
                    matching.push(id);
                }
            },
            None => {
                unknown.push(id);
            },
        }
        proof {
            let f1 = |x: (CardInstanceId, Option<Type>)| x.1 matches Some(t) && pref.contains(t);
            let f2 = |x: (CardInstanceId, Option<Type>)| x.1 is Some;
            let f3 = |x: (CardInstanceId, Option<Type>)| x.1 is None;
            assert(matching@ =~= cand_ids(c.take(i + 1).filter(f1)));
            assert(known@ =~= cand_ids(c.take(i + 1).filter(f2)));
            assert(unknown@ =~= cand_ids(c.take(i + 1).filter(f3)));
        }
        i = i + 1;
    }
    assert(c.take(i as int) =~= c);
    if matching.len() > 0 {
        return choose_one(matching.as_slice(), rng);
    }
    if known.len() > 0 {
        return choose_one(known.as_slice(), rng);
    }
    proof {
        let x = c[0];
        let f2 = |x: (CardInstanceId, Option<Type>)| x.1 is Some;
        let f3 = |x: (CardInstanceId, Option<Type>)| x.1 is None;
        assert(c.contains(x));
        if x.1 is Some {
            assert(c.filter(f2).contains(x));
            let j = choose|j: int| 0 <= j < c.filter(f2).len() && c.filter(f2)[j] == x;
            assert(known_ids(c)[j] == x.0);
        } else {
            assert(c.filter(f3).contains(x));
            let j = choose|j: int| 0 <= j < c.filter(f3).len() && c.filter(f3)[j] == x;
            assert(unknown_ids(c)[j] == x.0);
        }
    }
    choose_one(unknown.as_slice(), rng)
}

} // verus!
