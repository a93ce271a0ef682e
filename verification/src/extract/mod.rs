pub mod amm;
pub mod pump;
