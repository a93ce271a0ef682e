//! The parts of an Anchor IDL that instruction matching reads.
use vstd::prelude::*;

verus! {

/// An account slot of an IDL instruction; `name` is its `"name"` field where
/// that is a string.
#[derive(Debug)]
pub struct IdlAccount {
    pub name: Option<String>,
}

/// An instruction of the IDL: its name, its eight-byte discriminator and its
/// account slots in order.
#[derive(Debug)]
pub struct Instruction {
    pub name: String,
    pub discriminator: Vec<u8>,
    pub accounts: Vec<IdlAccount>,
}

/// The IDL of a program.
#[derive(Debug)]
pub struct PumpIdl {
    pub instructions: Vec<Instruction>,
}

} // verus!
