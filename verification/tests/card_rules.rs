//! The rules helpers of the cards: coin-flip conditions and attack numbers.
use holon_bench::cards::{
    df_028_dragonair, df_030_flaaffy, df_032_kirlia, df_034_nidorina, df_035_nidorino, df_038_shelgon,
    df_039_smeargle, df_048_elekid, df_052_larvitar, df_057_nidoran_m, df_063_shellder,
};
use holon_bench::model::SpecialCondition;

#[test]
fn coin_conditions_apply_on_heads_only() {
    assert_eq!(df_028_dragonair::wrap_condition(true), Some(SpecialCondition::Paralyzed));
    assert_eq!(df_028_dragonair::wrap_condition(false), None);
    assert_eq!(df_030_flaaffy::thundershock_condition(true), Some(SpecialCondition::Paralyzed));
    assert_eq!(df_030_flaaffy::thundershock_condition(false), None);
    assert_eq!(df_032_kirlia::psyshock_condition(true), Some(SpecialCondition::Paralyzed));
    assert_eq!(df_032_kirlia::psyshock_condition(false), None);
    assert_eq!(df_052_larvitar::paralyzing_gaze_condition(true), Some(SpecialCondition::Paralyzed));
    assert_eq!(df_052_larvitar::paralyzing_gaze_condition(false), None);
    assert_eq!(df_057_nidoran_m::poison_horn_condition(true), Some(SpecialCondition::Poisoned));
    assert_eq!(df_057_nidoran_m::poison_horn_condition(false), None);
    assert_eq!(df_063_shellder::shell_grab_condition(true), Some(SpecialCondition::Paralyzed));
    assert_eq!(df_063_shellder::shell_grab_condition(false), None);
}

#[test]
fn fixed_conditions() {
    assert_eq!(df_034_nidorina::poison_sting_condition(), SpecialCondition::Poisoned);
    assert_eq!(df_039_smeargle::flickering_tail_condition(), SpecialCondition::Asleep);
}

#[test]
fn rage_adds_ten_per_counter() {
    assert_eq!(df_035_nidorino::rage_per_counter_damage(0), 10);
    assert_eq!(df_035_nidorino::rage_per_counter_damage(1), 20);
    assert_eq!(df_035_nidorino::rage_per_counter_damage(3), 40);
    assert_eq!(df_035_nidorino::rage_per_counter_damage(12), 130);
}

#[test]
fn fixed_attack_numbers() {
    assert_eq!(df_038_shelgon::double_edge_self_damage(), 10);
    assert_eq!(df_048_elekid::thunder_spear_snipe_damage(), 10);
    assert_eq!(df_048_elekid::thunder_spear_snipe_scope(), "OppAll");
}
