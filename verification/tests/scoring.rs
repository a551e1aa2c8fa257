//! Damage, health and energy arithmetic of the players.
use holon_bench::energy::{energy_type_from_card, energy_type_from_def_id, type_from_index, type_index};
use holon_bench::model::{Attack, AttackCost, CardInstance, PokemonView, Resistance, Type, Weakness};
use holon_bench::scoring::{attack_score, expected_damage_vs, raw_remaining_hp, remaining_hp};
use holon_bench::sort::{first_max, sort_by_key};

fn mon(hp: u16, damage_counters: u16) -> PokemonView {
    PokemonView {
        card: CardInstance { id: 1, def_id: "DF-71".to_string(), energy_id: None },
        hp,
        damage_counters,
        attached_energy: Vec::new(),
        attached_tool: None,
        special_conditions: Vec::new(),
        types: vec![Type::Water],
        weakness: None,
        resistance: None,
        is_ex: false,
    }
}

fn attack(damage: u16, attack_type: Type, total_energy: u16) -> Attack {
    Attack {
        name: "Tail Slap".to_string(),
        damage,
        attack_type,
        cost: AttackCost { total_energy, types: Vec::new() },
        effect_ast: None,
    }
}

#[test]
fn energy_types_from_ids() {
    assert_eq!(energy_type_from_def_id("ENERGY-FIRE"), Some(Type::Fire));
    assert_eq!(energy_type_from_def_id("energy-water"), Some(Type::Water));
    assert_eq!(energy_type_from_def_id("Grass"), Some(Type::Grass));
    assert_eq!(energy_type_from_def_id("DARK"), Some(Type::Darkness));
    assert_eq!(energy_type_from_def_id("double_colorless"), Some(Type::Colorless));
    assert_eq!(energy_type_from_def_id("DF-88"), None);
    let normalised = CardInstance { id: 3, def_id: "DF-88".to_string(), energy_id: Some("ENERGY-METAL".to_string()) };
    assert_eq!(energy_type_from_card(&normalised), Some(Type::Metal));
    let plain = CardInstance { id: 4, def_id: "energy-psychic".to_string(), energy_id: None };
    assert_eq!(energy_type_from_card(&plain), Some(Type::Psychic));
}

#[test]
fn type_positions_round_trip() {
    for k in 0..9usize {
        assert_eq!(type_index(type_from_index(k)), k);
    }
    assert_eq!(type_index(Type::Lightning), 3);
    assert_eq!(type_from_index(8), Type::Colorless);
}

#[test]
fn hit_points_left() {
    assert_eq!(raw_remaining_hp(&mon(60, 2)), 40);
    assert_eq!(raw_remaining_hp(&mon(30, 5)), -20);
    assert_eq!(remaining_hp(&mon(30, 5)), 0);
}

#[test]
fn weakness_and_resistance() {
    let mut d = mon(70, 0);
    d.weakness = Some(Weakness { type_: Type::Lightning, multiplier: 2 });
    d.resistance = Some(Resistance { type_: Type::Fire, value: 30 });
    assert_eq!(expected_damage_vs(&attack(30, Type::Lightning, 1), Some(&d)), 60);
    assert_eq!(expected_damage_vs(&attack(20, Type::Fire, 1), Some(&d)), 0);
    assert_eq!(expected_damage_vs(&attack(50, Type::Fire, 1), Some(&d)), 20);
    assert_eq!(expected_damage_vs(&attack(50, Type::Water, 1), None), 50);
}

#[test]
fn attack_scores() {
    let d = mon(40, 0);
    assert_eq!(attack_score(&attack(20, Type::Water, 2), Some(&d), 20, 150), 2000 - 40);
    assert_eq!(attack_score(&attack(40, Type::Water, 2), Some(&d), 20, 150), 4000 - 40 + 100000);
    assert_eq!(attack_score(&attack(40, Type::Water, 2), None, 20, 150), 4000 - 40);
}

#[test]
fn stable_key_sort_and_first_maximum() {
    let sorted = sort_by_key(&vec![(2, 0, 10), (1, 5, 11), (2, 0, 12), (1, 0, 13)]);
    assert_eq!(sorted, vec![(1, 0, 13), (1, 5, 11), (2, 0, 10), (2, 0, 12)]);
    assert_eq!(first_max(&vec![(1, 0), (3, 1), (3, 1), (2, 9)]), 1);
}
