pub mod account_map;
pub mod collect;
pub mod match_ix;
