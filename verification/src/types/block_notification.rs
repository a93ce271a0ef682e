//! A `blockSubscribe` notification of a Solana node, reduced to the parts that
//! event extraction reads.
use vstd::prelude::*;

verus! {

/// A compiled instruction: the index of its program among the transaction's
/// accounts, the indices of its accounts, and its Base58 data.
#[derive(Debug)]
pub struct Instruction {
    pub program_id_index: u8,
    pub accounts: Vec<u8>,
    pub data: String,
}

/// The instructions that the outer instruction at `index` invoked.
#[derive(Debug)]
pub struct InnerInstructions {
    pub index: u8,
    pub instructions: Vec<Instruction>,
}

/// Accounts that address lookup tables loaded for a transaction.
#[derive(Debug)]
pub struct LoadedAddresses {
    pub writable: Vec<String>,
    pub readonly: Vec<String>,
}

/// The outcome of a transaction. `err` holds the error, rendered as text,
/// when the transaction failed.
#[derive(Debug)]
pub struct TransactionMeta {
    pub err: Option<String>,
    pub log_messages: Option<Vec<String>>,
    pub loaded_addresses: LoadedAddresses,
    pub inner_instructions: Option<Vec<InnerInstructions>>,
}

/// A transaction message: its static account keys and outer instructions.
#[derive(Debug)]
pub struct Message {
    pub account_keys: Vec<String>,
    pub instructions: Vec<Instruction>,
}

/// A signed transaction.
#[derive(Debug)]
pub struct TransactionData {
    pub signatures: Vec<String>,
    pub message: Message,
}

/// A transaction of a block together with its outcome.
#[derive(Debug)]
pub struct Transaction {
    pub transaction: TransactionData,
    pub meta: TransactionMeta,
}

#[derive(Debug)]
pub struct Block {
    pub transactions: Vec<Transaction>,
}

#[derive(Debug)]
pub struct BlockValue {
    pub slot: u64,
    pub block: Block,
}

#[derive(Debug)]
pub struct BlockResult {
    pub value: BlockValue,
}

#[derive(Debug)]
pub struct BlockParams {
    pub result: BlockResult,
}

/// A `blockNotification` message.
#[derive(Debug)]
pub struct BlockNotification {
    pub params: BlockParams,
}

} // verus!
