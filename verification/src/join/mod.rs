pub mod join_amm;
pub mod join_pump;
