//! One module per card of the Dragon Frontiers expansion: its identifiers,
//! attack data and the small rules helpers its attacks need.
pub mod df_028_dragonair;
pub mod df_030_flaaffy;
pub mod df_031_horsea;
pub mod df_032_kirlia;
pub mod df_034_nidorina;
pub mod df_035_nidorino;
pub mod df_038_shelgon;
pub mod df_039_smeargle;
pub mod df_042_vibrava;
pub mod df_048_elekid;
pub mod df_052_larvitar;
pub mod df_057_nidoran_m;
pub mod df_062_seel;
pub mod df_063_shellder;
pub mod df_071_wooper;
pub mod df_075_holon_mentor;
pub mod df_076_island_hermit;
pub mod df_077_mr_stone_s_project;
pub mod df_083_switch;
pub mod df_085_holon_energy_gl;
pub mod df_086_holon_energy_wp;
pub mod df_087_boost_energy;
pub mod df_088_rainbow_energy;
