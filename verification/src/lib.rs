pub mod decode;
pub mod error;
pub mod extract;
pub mod idl;
pub mod join;
pub mod text;
pub mod time;
pub mod types;
