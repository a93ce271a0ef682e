pub mod amm;
pub mod borsh;
pub mod program_data;
pub mod pump;
