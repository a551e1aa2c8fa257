//! The identifiers and attack data of each card, as the card files and
//! their evaluations give them.
use holon_bench::cards::df_028_dragonair;
use holon_bench::cards::df_030_flaaffy;
use holon_bench::cards::df_031_horsea;
use holon_bench::cards::df_032_kirlia;
use holon_bench::cards::df_034_nidorina;
use holon_bench::cards::df_035_nidorino;
use holon_bench::cards::df_038_shelgon;
use holon_bench::cards::df_039_smeargle;
use holon_bench::cards::df_042_vibrava;
use holon_bench::cards::df_048_elekid;
use holon_bench::cards::df_052_larvitar;
use holon_bench::cards::df_057_nidoran_m;
use holon_bench::cards::df_062_seel;
use holon_bench::cards::df_063_shellder;
use holon_bench::cards::df_071_wooper;
use holon_bench::cards::df_075_holon_mentor;
use holon_bench::cards::df_076_island_hermit;
use holon_bench::cards::df_077_mr_stone_s_project;
use holon_bench::cards::df_083_switch;
use holon_bench::cards::df_085_holon_energy_gl;
use holon_bench::cards::df_086_holon_energy_wp;
use holon_bench::cards::df_087_boost_energy;
use holon_bench::cards::df_088_rainbow_energy;

#[test]
fn df_028_dragonair_test_card_identifiers() {
    assert_eq!(df_028_dragonair::SET, "DF");
    assert_eq!(df_028_dragonair::NUMBER, 28);
    assert_eq!(df_028_dragonair::NAME, "Dragonair δ");
}

#[test]
fn df_030_flaaffy_test_card_identifiers() {
    assert_eq!(df_030_flaaffy::SET, "DF");
    assert_eq!(df_030_flaaffy::NUMBER, 30);
    assert_eq!(df_030_flaaffy::NAME, "Flaaffy δ");
}

#[test]
fn df_031_horsea_test_card_identifiers() {
    assert_eq!(df_031_horsea::SET, "DF");
    assert_eq!(df_031_horsea::NUMBER, 31);
    assert_eq!(df_031_horsea::NAME, "Horsea δ");
}

#[test]
fn df_031_horsea_eval_eval_set_constant() {
    assert_eq!(df_031_horsea::SET, "DF");
}

#[test]
fn df_031_horsea_eval_eval_number_constant() {
    assert_eq!(df_031_horsea::NUMBER, 31);
}

#[test]
fn df_031_horsea_eval_eval_name_constant() {
    assert_eq!(df_031_horsea::NAME, "Horsea δ");
}

#[test]
fn df_031_horsea_eval_eval_attack_1_name() {
    assert_eq!(df_031_horsea::ATTACK_1_NAME, "Tackle");
}

#[test]
fn df_031_horsea_eval_eval_attack_1_damage() {
    assert_eq!(df_031_horsea::ATTACK_1_DAMAGE, 10);
}

#[test]
fn df_031_horsea_eval_eval_attack_2_name() {
    assert_eq!(df_031_horsea::ATTACK_2_NAME, "Reverse Thrust");
}

#[test]
fn df_031_horsea_eval_eval_attack_2_damage() {
    assert_eq!(df_031_horsea::ATTACK_2_DAMAGE, 20);
}

#[test]
fn df_031_horsea_eval_eval_attack_2_text() {
    assert_eq!(df_031_horsea::ATTACK_2_TEXT, "Switch Horsea with 1 of your Benched Pokémon.");
}

#[test]
fn df_032_kirlia_test_card_identifiers() {
    assert_eq!(df_032_kirlia::SET, "DF");
    assert_eq!(df_032_kirlia::NUMBER, 32);
    assert_eq!(df_032_kirlia::NAME, "Kirlia");
}

#[test]
fn df_034_nidorina_test_card_identifiers() {
    assert_eq!(df_034_nidorina::SET, "DF");
    assert_eq!(df_034_nidorina::NUMBER, 34);
    assert_eq!(df_034_nidorina::NAME, "Nidorina δ");
}

#[test]
fn df_035_nidorino_test_card_identifiers() {
    assert_eq!(df_035_nidorino::SET, "DF");
    assert_eq!(df_035_nidorino::NUMBER, 35);
    assert_eq!(df_035_nidorino::NAME, "Nidorino δ");
}

#[test]
fn df_038_shelgon_test_card_identifiers() {
    assert_eq!(df_038_shelgon::SET, "DF");
    assert_eq!(df_038_shelgon::NUMBER, 38);
    assert_eq!(df_038_shelgon::NAME, "Shelgon δ");
}

#[test]
fn df_039_smeargle_test_card_identifiers() {
    assert_eq!(df_039_smeargle::SET, "DF");
    assert_eq!(df_039_smeargle::NUMBER, 39);
    assert_eq!(df_039_smeargle::NAME, "Smeargle δ");
}

#[test]
fn df_042_vibrava_eval_eval_set_constant() {
    assert_eq!(df_042_vibrava::SET, "DF");
}

#[test]
fn df_042_vibrava_eval_eval_number_constant() {
    assert_eq!(df_042_vibrava::NUMBER, 42);
}

#[test]
fn df_042_vibrava_eval_eval_name_constant() {
    assert_eq!(df_042_vibrava::NAME, "Vibrava δ");
}

#[test]
fn df_042_vibrava_eval_eval_attack_1_name() {
    assert_eq!(df_042_vibrava::ATTACK_1_NAME, "Bite");
}

#[test]
fn df_042_vibrava_eval_eval_attack_1_damage() {
    assert_eq!(df_042_vibrava::ATTACK_1_DAMAGE, 20);
}

#[test]
fn df_042_vibrava_eval_eval_attack_2_name() {
    assert_eq!(df_042_vibrava::ATTACK_2_NAME, "Sonic Noise");
}

#[test]
fn df_042_vibrava_eval_eval_attack_2_damage() {
    assert_eq!(df_042_vibrava::ATTACK_2_DAMAGE, 30);
}

#[test]
fn df_042_vibrava_eval_eval_attack_2_text() {
    assert_eq!(df_042_vibrava::ATTACK_2_TEXT, "If the Defending Pokémon is Pokémon-ex, that Pokémon is now Confused.");
}

#[test]
fn df_048_elekid_test_card_identifiers() {
    assert_eq!(df_048_elekid::SET, "DF");
    assert_eq!(df_048_elekid::NUMBER, 48);
    assert_eq!(df_048_elekid::NAME, "Elekid δ");
}

#[test]
fn df_052_larvitar_test_card_identifiers() {
    assert_eq!(df_052_larvitar::SET, "DF");
    assert_eq!(df_052_larvitar::NUMBER, 52);
    assert_eq!(df_052_larvitar::NAME, "Larvitar δ");
}

#[test]
fn df_057_nidoran_m_test_card_identifiers() {
    assert_eq!(df_057_nidoran_m::SET, "DF");
    assert_eq!(df_057_nidoran_m::NUMBER, 57);
    assert_eq!(df_057_nidoran_m::NAME, "Nidoran ♂ δ");
}

#[test]
fn df_062_seel_test_card_identifiers() {
    assert_eq!(df_062_seel::SET, "DF");
    assert_eq!(df_062_seel::NUMBER, 62);
    assert_eq!(df_062_seel::NAME, "Seel δ");
}

#[test]
fn df_063_shellder_test_card_identifiers() {
    assert_eq!(df_063_shellder::SET, "DF");
    assert_eq!(df_063_shellder::NUMBER, 63);
    assert_eq!(df_063_shellder::NAME, "Shellder δ");
}

#[test]
fn df_071_wooper_eval_eval_set_constant() {
    assert_eq!(df_071_wooper::SET, "DF");
}

#[test]
fn df_071_wooper_eval_eval_number_constant() {
    assert_eq!(df_071_wooper::NUMBER, 71);
}

#[test]
fn df_071_wooper_eval_eval_name_constant() {
    assert_eq!(df_071_wooper::NAME, "Wooper δ");
}

#[test]
fn df_071_wooper_eval_eval_attack_1_name() {
    assert_eq!(df_071_wooper::ATTACK_1_NAME, "Amnesia");
}

#[test]
fn df_071_wooper_eval_eval_attack_1_damage() {
    assert_eq!(df_071_wooper::ATTACK_1_DAMAGE, 0);
}

#[test]
fn df_071_wooper_eval_eval_attack_2_name() {
    assert_eq!(df_071_wooper::ATTACK_2_NAME, "Tail Slap");
}

#[test]
fn df_071_wooper_eval_eval_attack_2_damage() {
    assert_eq!(df_071_wooper::ATTACK_2_DAMAGE, 20);
}

#[test]
fn eval_attack_1_text() {
    assert_eq!(df_071_wooper::ATTACK_1_TEXT, "Choose 1 of the Defending Pokémon's attacks. That Pokémon can't use that attack during your opponent's next turn.");
}

#[test]
fn df_075_holon_mentor_test_card_identifiers() {
    assert_eq!(df_075_holon_mentor::SET, "DF");
    assert_eq!(df_075_holon_mentor::NUMBER, 75);
    assert_eq!(df_075_holon_mentor::NAME, "Holon Mentor");
}

#[test]
fn df_076_island_hermit_test_card_identifiers() {
    assert_eq!(df_076_island_hermit::SET, "DF");
    assert_eq!(df_076_island_hermit::NUMBER, 76);
    assert_eq!(df_076_island_hermit::NAME, "Island Hermit");
}

#[test]
fn df_077_mr_stone_s_project_test_card_identifiers() {
    assert_eq!(df_077_mr_stone_s_project::SET, "DF");
    assert_eq!(df_077_mr_stone_s_project::NUMBER, 77);
    assert_eq!(df_077_mr_stone_s_project::NAME, "Mr. Stone's Project");
}

#[test]
fn df_083_switch_test_card_identifiers() {
    assert_eq!(df_083_switch::SET, "DF");
    assert_eq!(df_083_switch::NUMBER, 83);
    assert_eq!(df_083_switch::NAME, "Switch");
}

#[test]
fn df_083_switch_eval_eval_set_constant() {
    assert_eq!(df_083_switch::SET, "DF");
}

#[test]
fn df_083_switch_eval_eval_number_constant() {
    assert_eq!(df_083_switch::NUMBER, 83);
}

#[test]
fn df_083_switch_eval_eval_name_constant() {
    assert_eq!(df_083_switch::NAME, "Switch");
}

#[test]
fn df_085_holon_energy_gl_test_card_identifiers() {
    assert_eq!(df_085_holon_energy_gl::SET, "DF");
    assert_eq!(df_085_holon_energy_gl::NUMBER, 85);
    assert_eq!(df_085_holon_energy_gl::NAME, "Holon Energy GL");
}

#[test]
fn df_086_holon_energy_wp_eval_eval_set_constant() {
    assert_eq!(df_086_holon_energy_wp::SET, "DF");
}

#[test]
fn df_086_holon_energy_wp_eval_eval_number_constant() {
    assert_eq!(df_086_holon_energy_wp::NUMBER, 86);
}

#[test]
fn df_086_holon_energy_wp_eval_eval_name_constant() {
    assert_eq!(df_086_holon_energy_wp::NAME, "Holon Energy WP");
}

#[test]
fn df_087_boost_energy_test_card_identifiers() {
    assert_eq!(df_087_boost_energy::SET, "DF");
    assert_eq!(df_087_boost_energy::NUMBER, 87);
    assert_eq!(df_087_boost_energy::NAME, "Boost Energy");
}

#[test]
fn df_088_rainbow_energy_test_card_identifiers() {
    assert_eq!(df_088_rainbow_energy::SET, "DF");
    assert_eq!(df_088_rainbow_energy::NUMBER, 88);
    assert_eq!(df_088_rainbow_energy::NAME, "δ Rainbow Energy");
}
