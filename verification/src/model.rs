//! The game state as the decision logic sees it: plain values for players,
//! cards, Pokémon in play, attacks, prompts and actions.
use vstd::prelude::*;

verus! {

/// Identifies one physical card for the length of a game.
pub type CardInstanceId = u64;

/// The two seats at the table.
#[derive(Clone, Copy, PartialEq, Eq, Debug, Structural)]
pub enum PlayerId {
    P1,
    P2,
}

/// Energy and Pokémon types.
#[derive(Clone, Copy, PartialEq, Eq, Debug, Structural)]
pub enum Type {
    Grass,
    Fire,
    Water,
    Lightning,
    Psychic,
    Fighting,
    Darkness,
    Metal,
    Colorless,
}

/// Special conditions that an attack can inflict.
#[derive(Clone, Copy, PartialEq, Eq, Debug, Structural)]
pub enum SpecialCondition {
    Asleep,
    Burned,
    Confused,
    Paralyzed,
    Poisoned,
}

/// Turn phases of the rules engine.
#[derive(Clone, Copy, PartialEq, Eq, Debug, Structural)]
pub enum Phase {
    Setup,
    Draw,
    Main,
    Attack,
    EndOfTurn,
}

/// One card: its identity, its definition id and, when it is a basic energy
/// card, the normalised energy id that the rules engine gives it.
pub struct CardInstance {
    pub id: CardInstanceId,
    pub def_id: String,
    pub energy_id: Option<String>,
}

pub struct Weakness {
    pub type_: Type,
    pub multiplier: u8,
}

pub struct Resistance {
    pub type_: Type,
    pub value: u16,
}

/// A Pokémon in play, as seen by one player.
pub struct PokemonView {
    pub card: CardInstance,
    pub hp: u16,
    pub damage_counters: u16,
    pub attached_energy: Vec<CardInstance>,
    pub attached_tool: Option<CardInstance>,
    pub special_conditions: Vec<SpecialCondition>,
    pub types: Vec<Type>,
    pub weakness: Option<Weakness>,
    pub resistance: Option<Resistance>,
    pub is_ex: bool,
}

pub struct AttackCost {
    pub total_energy: u16,
    pub types: Vec<Type>,
}

/// An attack; `effect_ast` holds the attack's effect description, if any.
pub struct Attack {
    pub name: String,
    pub damage: u16,
    pub attack_type: Type,
    pub cost: AttackCost,
    pub effect_ast: Option<String>,
}

/// The mathematical value of an attack.
pub struct AttackValue {
    pub name: Seq<char>,
    pub damage: u16,
    pub attack_type: Type,
    pub total_energy: u16,
    pub cost_types: Seq<Type>,
    pub effect: Option<Seq<char>>,
}

pub open spec fn opt_string_view(o: Option<String>) -> Option<Seq<char>> {
    match o {
        Some(s) => Some(s@),
        None => None,
    }
}

impl View for Attack {
    type V = AttackValue;

    open spec fn view(&self) -> AttackValue {
        AttackValue {
            name: self.name@,
            damage: self.damage,
            attack_type: self.attack_type,
            total_energy: self.cost.total_energy,
            cost_types: self.cost.types@,
            effect: opt_string_view(self.effect_ast),
        }
    }
}

/// What the rules engine tells a player it may do right now.
pub struct ActionHints {
    pub playable_basic_ids: Vec<CardInstanceId>,
    pub playable_energy_ids: Vec<CardInstanceId>,
    pub playable_evolution_ids: Vec<CardInstanceId>,
    pub playable_trainer_ids: Vec<CardInstanceId>,
    pub attach_targets: Vec<CardInstanceId>,
    /// For each evolution card in hand, the Pokémon it may evolve (keys are distinct).
    pub evolve_targets_by_card_id: Vec<(CardInstanceId, Vec<CardInstanceId>)>,
    pub usable_attacks: Vec<Attack>,
    pub can_declare_attack: bool,
    pub can_end_turn: bool,
    pub can_retreat: bool,
}

/// The game as one player sees it.
pub struct GameView {
    pub player_id: PlayerId,
    pub current_player: PlayerId,
    pub has_pending_prompt: bool,
    pub my_active: Option<PokemonView>,
    pub my_bench: Vec<PokemonView>,
    pub opponent_active: Option<PokemonView>,
    pub opponent_bench: Vec<PokemonView>,
    pub my_hand: Vec<CardInstance>,
    pub my_discard: Vec<CardInstance>,
    pub action_hints: ActionHints,
}

/// A question the rules engine asks a player.
#[allow(inconsistent_fields)]
pub enum Prompt {
    ChooseStartingActive { options: Vec<CardInstanceId> },
    ChooseBenchBasics { options: Vec<CardInstanceId>, min: usize, max: usize },
    ChooseAttack { attacks: Vec<Attack> },
    ChooseCardsFromDeck {
        player: PlayerId,
        count: usize,
        options: Vec<CardInstanceId>,
        min: Option<usize>,
        max: Option<usize>,
        revealed_cards: Vec<CardInstance>,
    },
    ChooseCardsFromDiscard {
        player: PlayerId,
        count: usize,
        options: Vec<CardInstanceId>,
        min: Option<usize>,
        max: Option<usize>,
    },
    ChoosePokemonInPlay { player: PlayerId, options: Vec<CardInstanceId>, min: usize, max: usize },
    ReorderDeckTop { player: PlayerId, options: Vec<CardInstanceId> },
    ChooseAttachedEnergy {
        player: PlayerId,
        pokemon_id: CardInstanceId,
        count: usize,
        min: Option<usize>,
    },
    ChooseCardsFromHand {
        player: PlayerId,
        count: usize,
        options: Vec<CardInstanceId>,
        min: Option<usize>,
        max: Option<usize>,
        return_to_deck: bool,
    },
    ChooseCardsInPlay { player: PlayerId, options: Vec<CardInstanceId>, min: usize, max: usize },
    ChoosePrizeCards { player: PlayerId, options: Vec<CardInstanceId>, min: usize, max: usize },
    ChooseDefenderAttack { player: PlayerId, attacks: Vec<String> },
    ChooseNewActive { player: PlayerId, options: Vec<CardInstanceId> },
    ChoosePokemonAttack { player: PlayerId, attacks: Vec<String> },
    ChooseSpecialCondition { player: PlayerId, options: Vec<SpecialCondition> },
}

/// A move a player submits to the rules engine.
#[allow(inconsistent_fields)]
pub enum Action {
    ChooseActive { card_id: CardInstanceId },
    ChooseBench { card_ids: Vec<CardInstanceId> },
    ChooseNewActive { card_id: CardInstanceId },
    DeclareAttack { attack: Attack },
    AttachEnergy { energy_id: CardInstanceId, target_id: CardInstanceId },
    PlayBasic { card_id: CardInstanceId },
    PlayTrainer { card_id: CardInstanceId },
    EvolveFromHand { card_id: CardInstanceId, target_id: CardInstanceId },
    Retreat { to_bench_id: CardInstanceId },
    TakeCardsFromDeck { card_ids: Vec<CardInstanceId> },
    TakeCardsFromDiscard { card_ids: Vec<CardInstanceId> },
    ChoosePokemonTargets { target_ids: Vec<CardInstanceId> },
    ReorderDeckTop { card_ids: Vec<CardInstanceId> },
    ChooseAttachedEnergy { energy_ids: Vec<CardInstanceId> },
    ReturnCardsFromHandToDeck { card_ids: Vec<CardInstanceId> },
    DiscardCardsFromHand { card_ids: Vec<CardInstanceId> },
    ChooseCardsInPlay { card_ids: Vec<CardInstanceId> },
    ChoosePrizeCards { card_ids: Vec<CardInstanceId> },
    ChooseDefenderAttack { attack_name: String },
    ChoosePokemonAttack { attack_name: String },
    ChooseSpecialCondition { condition: SpecialCondition },
    CancelPrompt,
    EndTurn,
}

/// A copy of `ids`.
pub fn copy_ids(ids: &Vec<CardInstanceId>) -> (r: Vec<CardInstanceId>)
    ensures
        r@ == ids@,
{
    let mut r: Vec<CardInstanceId> = Vec::new();
    let mut i: usize = 0;
    while i < ids.len()
        invariant
            i <= ids.len(),
            r@ == ids@.take(i as int),
        decreases ids.len() - i,
    {
        r.push(ids[i]);
        i = i + 1;
        assert(r@ =~= ids@.take(i as int));
    }
    assert(ids@.take(i as int) =~= ids@);
    r
}

/// A copy of a vector of plain values.
pub fn copy_vec<T: Copy>(v: &Vec<T>) -> (r: Vec<T>)
    ensures
        r@ == v@,
{
    let mut r: Vec<T> = Vec::new();
    let mut i: usize = 0;
    while i < v.len()
        invariant
            i <= v.len(),
            r@ == v@.take(i as int),
        decreases v.len() - i,
    {
        r.push(v[i]);
        i = i + 1;
        assert(r@ =~= v@.take(i as int));
    }
    assert(v@.take(i as int) =~= v@);
    r
}

/// A copy of `types`.
pub fn copy_types(types: &Vec<Type>) -> (r: Vec<Type>)
    ensures
        r@ == types@,
{
    let mut r: Vec<Type> = Vec::new();
    let mut i: usize = 0;
    while i < types.len()
        invariant
            i <= types.len(),
            r@ == types@.take(i as int),
        decreases types.len() - i,
    {
        r.push(types[i]);
        i = i + 1;
        assert(r@ =~= types@.take(i as int));
    }
    assert(types@.take(i as int) =~= types@);
    r
}

/// A copy of `attack`.
pub fn copy_attack(attack: &Attack) -> (r: Attack)
    ensures
        r@ == attack@,
{
    let effect_ast = match &attack.effect_ast {
        Some(s) => Some(s.clone()),
        None => None,
    };
    Attack {
        name: attack.name.clone(),
        damage: attack.damage,
        attack_type: attack.attack_type,
        cost: AttackCost { total_energy: attack.cost.total_energy, types: copy_types(&attack.cost.types) },
        effect_ast,
    }
}

/// The attack that stands for "declare whatever attack is possible": no name,
/// no damage, no cost, no effect.
pub fn dummy_attack() -> (r: Attack)
    ensures
        r@.name.len() == 0,
        r@.damage == 0,
        r@.attack_type == Type::Colorless,
        r@.total_energy == 0,
        r@.cost_types.len() == 0,
        r@.effect is None,
{
    Attack {
        name: String::new(),
        damage: 0,
        attack_type: Type::Colorless,
        cost: AttackCost { total_energy: 0, types: Vec::new() },
        effect_ast: None,
    }
}

} // verus!
