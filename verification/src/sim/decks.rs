//! Deck lists: a stored deck is a list of card definitions with counts, a
//! theme deck lists cards and basic energy by type. Each expands into the
//! card definition ids of the deck, one per card, in list order.
use vstd::prelude::*;
use crate::sim::json::{Json, parsed_json, parse_json, field, get_field, json_text, json_count, json_items, text_of, count_of};

verus! {

broadcast use vstd::seq_lib::group_seq_properties;

/// One line of a stored deck list.
pub struct DeckEntry {
    pub card_def_id: String,
    pub count: usize,
}

/// `x` repeated `n` times.
pub open spec fn repeat(x: Seq<char>, n: nat) -> Seq<Seq<char>> {
    Seq::new(n, |i: int| x)
}

/// The ids of a stored deck list: each entry's id as many times as its count.
pub open spec fn entry_ids(entries: Seq<DeckEntry>) -> Seq<Seq<char>>
    decreases entries.len(),
{
    if entries.len() == 0 {
        Seq::empty()
    } else {
        entry_ids(entries.drop_last()) + repeat(entries.last().card_def_id@, entries.last().count as nat)
    }
}

pub open spec fn views(v: Seq<String>) -> Seq<Seq<char>> {
    v.map_values(|s: String| s@)
}

/// Pushes `n` copies of `id`.
fn push_copies(out: &mut Vec<String>, id: &String, n: usize)
    ensures
        views(final(out)@) == views(old(out)@) + repeat(id@, n as nat),
{
    let ghost start = views(out@);
    let mut k: usize = 0;
    while k < n
        invariant
            k <= n,
            views(out@) == start + repeat(id@, k as nat),
        decreases n - k,
    {
        let ghost before = out@;
        let c = id.clone();
        out.push(c);
        assert(views(out@) =~= views(before).push(c@));
        k = k + 1;
        assert(views(out@) =~= start + repeat(id@, k as nat));
    }
}

/// The card ids of a stored deck list, `None` when it holds no card.
pub fn expand_deck_entries(entries: &Vec<DeckEntry>) -> (r: Option<Vec<String>>)
    ensures
        r is None <==> entry_ids(entries@).len() == 0,
        r matches Some(v) ==> views(v@) == entry_ids(entries@),
{
    let mut out: Vec<String> = Vec::new();
    let mut i: usize = 0;
    while i < entries.len()
        invariant
            i <= entries@.len(),
            views(out@) == entry_ids(entries@.take(i as int)),
        decreases entries@.len() - i,
    {
        push_copies(&mut out, &entries[i].card_def_id, entries[i].count);
        assert(entries@.take(i + 1).drop_last() =~= entries@.take(i as int));
        i = i + 1;
    }
    assert(entries@.take(i as int) =~= entries@);
    if out.len() == 0 {
        None
    } else {
        Some(out)
    }
}

/// The search pattern for a deck name: the name with `%` on both sides.
pub fn name_pattern(deck_name: &str) -> (r: String)
    ensures
        r@ == "%"@ + deck_name@ + "%"@,
{
    let r = String::from_str("%");
    let r = r.concat(deck_name);
    r.concat("%")
}

/// A card line of a theme deck: its definition id, when it has one as a
/// string, and its count, when it has one as an unsigned integer.
pub struct ThemeCard {
    pub def_id: Option<String>,
    pub count: Option<u64>,
}

/// An energy line of a theme deck: the energy type, when it has one as a
/// string, and its count, when it has one as an unsigned integer.
pub struct ThemeEnergy {
    pub energy_type: Option<String>,
    pub count: Option<u64>,
}

/// A theme deck: its card lines and its energy lines.
pub struct ThemeDeck {
    pub cards: Vec<ThemeCard>,
    pub energy: Vec<ThemeEnergy>,
}

/// What `str::to_uppercase` gives for a string: its Unicode upper case.
pub uninterp spec fn unicode_upper(s: Seq<char>) -> Seq<char>;

/// `str::to_uppercase` (std): the upper-case equivalent of the string as a new
/// string, by the Unicode case tables. The result is a function of the
/// string alone and is named, not spelled out.
#[verifier::external_body]
fn to_uppercase(s: &str) -> (r: String)
    ensures
        r@ == unicode_upper(s@),
{
    s.to_uppercase()
}

/// The definition id of basic energy whose type is already upper case:
/// `ENERGY-` and the type.
pub fn energy_def_id_from_upper(upper_type: &str) -> (r: String)
    ensures
        r@ == "ENERGY-"@ + upper_type@,
{
    String::from_str("ENERGY-").concat(upper_type)
}

/// The definition id of basic energy of a type: `ENERGY-` and the type in
/// upper case.
pub fn energy_def_id(energy_type: &str) -> (r: String)
    ensures
        r@ == "ENERGY-"@ + unicode_upper(energy_type@),
{
    let upper = to_uppercase(energy_type);
    energy_def_id_from_upper(upper.as_str())
}

/// A card line counts once when it gives no count.
pub open spec fn card_count(c: ThemeCard) -> nat {
    match c.count {
        Some(n) => (n as usize) as nat,
        None => 1,
    }
}

/// An energy line counts for nothing when it gives no count.
pub open spec fn energy_count(e: ThemeEnergy) -> nat {
    match e.count {
        Some(n) => (n as usize) as nat,
        None => 0,
    }
}

pub open spec fn cards_named(cards: Seq<ThemeCard>) -> bool {
    forall|k: int| 0 <= k < cards.len() ==> (#[trigger] cards[k]).def_id is Some
}

pub open spec fn energy_named(energy: Seq<ThemeEnergy>) -> bool {
    forall|k: int| 0 <= k < energy.len() ==> (#[trigger] energy[k]).energy_type is Some
}

pub open spec fn theme_card_ids(cards: Seq<ThemeCard>) -> Seq<Seq<char>>
    decreases cards.len(),
{
    if cards.len() == 0 {
        Seq::empty()
    } else {
        theme_card_ids(cards.drop_last()) + repeat(cards.last().def_id.unwrap()@, card_count(cards.last()))
    }
}

pub open spec fn theme_energy_ids(energy: Seq<ThemeEnergy>) -> Seq<Seq<char>>
    decreases energy.len(),
{
    if energy.len() == 0 {
        Seq::empty()
    } else {
        theme_energy_ids(energy.drop_last()) + repeat(
            "ENERGY-"@ + unicode_upper(energy.last().energy_type.unwrap()@),
            energy_count(energy.last()),
        )
    }
}

/// The card ids of a theme deck: nothing when a card line has no id or an
/// energy line no type, or when the deck holds no card; otherwise the card
/// lines expanded, then the energy lines expanded.
pub open spec fn theme_ids(deck: ThemeDeck) -> Option<Seq<Seq<char>>> {
    theme_ids_of(deck.cards@, deck.energy@)
}

/// The card ids of a theme deck with these card and energy lines.
pub open spec fn theme_ids_of(cards: Seq<ThemeCard>, energy: Seq<ThemeEnergy>) -> Option<Seq<Seq<char>>> {
    if !cards_named(cards) || !energy_named(energy) {
        None
    } else {
        let ids = theme_card_ids(cards) + theme_energy_ids(energy);
        if ids.len() == 0 { None } else { Some(ids) }
    }
}

/// The card ids of a theme deck.
pub fn expand_theme_deck(deck: &ThemeDeck) -> (r: Option<Vec<String>>)
    ensures
        r is None <==> theme_ids(*deck) is None,
        r matches Some(v) ==> Some(views(v@)) == theme_ids(*deck),
{
    let mut out: Vec<String> = Vec::new();
    let mut i: usize = 0;
    while i < deck.cards.len()
        invariant
            i <= deck.cards@.len(),
            cards_named(deck.cards@.take(i as int)),
            views(out@) == theme_card_ids(deck.cards@.take(i as int)),
        decreases deck.cards@.len() - i,
    {
        let line = &deck.cards[i];
        match &line.def_id {
            Some(id) => {
                let n: usize = match line.count {
                    Some(c) => c as usize,
                    None => 1,
                };
                push_copies(&mut out, id, n);
            },
            None => {
                assert(!cards_named(deck.cards@));
                return None;
            },
        }
        assert(deck.cards@.take(i + 1).drop_last() =~= deck.cards@.take(i as int));
        i = i + 1;
    }
    assert(deck.cards@.take(i as int) =~= deck.cards@);
    let ghost card_part = views(out@);
    let mut e: usize = 0;
    while e < deck.energy.len()
        invariant
            e <= deck.energy@.len(),
            energy_named(deck.energy@.take(e as int)),
            views(out@) == card_part + theme_energy_ids(deck.energy@.take(e as int)),
        decreases deck.energy@.len() - e,
    {
        let line = &deck.energy[e];
        match &line.energy_type {
            Some(t) => {
                let n: usize = match line.count {
                    Some(c) => c as usize,
                    None => 0,
                };
                let id = energy_def_id(t.as_str());
                push_copies(&mut out, &id, n);
            },
            None => {
                assert(!energy_named(deck.energy@));
                return None;
            },
        }
        assert(deck.energy@.take(e + 1).drop_last() =~= deck.energy@.take(e as int));
        e = e + 1;
    }
    assert(deck.energy@.take(e as int) =~= deck.energy@);
    if out.len() == 0 {
        None
    } else {
        Some(out)
    }
}

// ---------------------------------------------------------------- theme files

/// A card line read from JSON: `def_id` counts only as a string, `count`
/// only as an unsigned integer.
pub open spec fn card_line(c: Json) -> ThemeCard {
    ThemeCard { def_id: json_text(field(c, "def_id"@)), count: json_count(field(c, "count"@)) }
}

/// An energy line read from JSON: `type` counts only as a string, `count`
/// only as an unsigned integer.
pub open spec fn energy_line(e: Json) -> ThemeEnergy {
    ThemeEnergy { energy_type: json_text(field(e, "type"@)), count: json_count(field(e, "count"@)) }
}

/// The card lines of a theme document: its `cards` array, nothing when it
/// has none.
pub open spec fn json_cards(j: Json) -> Seq<ThemeCard> {
    json_items(field(j, "cards"@)).map_values(|c: Json| card_line(c))
}

/// The energy lines of a theme document: its `energy` array, nothing when it
/// has none.
pub open spec fn json_energy(j: Json) -> Seq<ThemeEnergy> {
    json_items(field(j, "energy"@)).map_values(|e: Json| energy_line(e))
}

pub open spec fn opt_json(o: Option<&Json>) -> Option<Json> {
    match o {
        Some(x) => Some(*x),
        None => None,
    }
}

fn items_of<'a>(j: Option<&'a Json>) -> (r: &'a [Json])
    ensures
        r@ == json_items(opt_json(j)),
{
    match j {
        Some(Json::Array(items)) => items.as_slice(),
        _ => &[],
    }
}

/// The theme deck a JSON document describes.
pub fn theme_deck_from_json(j: &Json) -> (r: ThemeDeck)
    ensures
        r.cards@ == json_cards(*j),
        r.energy@ == json_energy(*j),
{
    let card_items = items_of(get_field(j, "cards"));
    let mut cards: Vec<ThemeCard> = Vec::new();
    let mut i: usize = 0;
    while i < card_items.len()
        invariant
            i <= card_items@.len(),
            card_items@ == json_items(field(*j, "cards"@)),
            cards@ == card_items@.take(i as int).map_values(|c: Json| card_line(c)),
        decreases card_items@.len() - i,
    {
        let c = &card_items[i];
        let line = ThemeCard { def_id: text_of(get_field(c, "def_id")), count: count_of(get_field(c, "count")) };
        cards.push(line);
        i = i + 1;
        assert(cards@ =~= card_items@.take(i as int).map_values(|c: Json| card_line(c)));
    }
    assert(card_items@.take(i as int) =~= card_items@);
    let energy_items = items_of(get_field(j, "energy"));
    let mut energy: Vec<ThemeEnergy> = Vec::new();
    let mut k: usize = 0;
    while k < energy_items.len()
        invariant
            k <= energy_items@.len(),
            energy_items@ == json_items(field(*j, "energy"@)),
            energy@ == energy_items@.take(k as int).map_values(|e: Json| energy_line(e)),
        decreases energy_items@.len() - k,
    {
        let e = &energy_items[k];
        let line = ThemeEnergy { energy_type: text_of(get_field(e, "type")), count: count_of(get_field(e, "count")) };
        energy.push(line);
        k = k + 1;
        assert(energy@ =~= energy_items@.take(k as int).map_values(|e: Json| energy_line(e)));
    }
    assert(energy_items@.take(k as int) =~= energy_items@);
    ThemeDeck { cards, energy }
}

/// The card ids of a theme deck file's text: nothing when the text is not
/// JSON or the deck it describes has no ids (see `theme_ids`).
pub fn theme_deck_ids(text: &str) -> (r: Option<Vec<String>>)
    ensures
        r is None <==> (parsed_json(text@) is None
            || theme_ids_of(json_cards(parsed_json(text@).unwrap()), json_energy(parsed_json(text@).unwrap())) is None),
        r matches Some(v) ==> Some(views(v@)) == theme_ids_of(
            json_cards(parsed_json(text@).unwrap()),
            json_energy(parsed_json(text@).unwrap()),
        ),
{
    match parse_json(text) {
        Some(j) => {
            let deck = theme_deck_from_json(&j);
            expand_theme_deck(&deck)
        },
        None => None,
    }
}

} // verus!
