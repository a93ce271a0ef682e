//! Finding a program among a transaction's accounts and collecting its
//! instructions.
use vstd::prelude::*;

use crate::text::str_eq;
use crate::types::block_notification::{InnerInstructions, Instruction, Transaction};

verus! {

/// All accounts of a transaction, in the order that account indices count
/// them: the message's keys, then the loaded writable, then the loaded
/// read-only addresses.
pub open spec fn all_accounts(tx: Transaction) -> Seq<String> {
    tx.transaction.message.account_keys@ + tx.meta.loaded_addresses.writable@
        + tx.meta.loaded_addresses.readonly@
}

/// The index of the first account in `accounts` whose text is `address`.
pub open spec fn position_of(accounts: Seq<String>, address: Seq<char>) -> Option<int>
    decreases accounts.len(),
{
    if accounts.len() == 0 {
        None
    } else {
        match position_of(accounts.drop_last(), address) {
            Some(i) => Some(i),
            None => if accounts.last()@ == address {
                Some(accounts.len() - 1)
            } else {
                None
            },
        }
    }
}

pub proof fn lemma_position_of(accounts: Seq<String>, address: Seq<char>)
    ensures
        position_of(accounts, address) matches Some(i) ==> {
            &&& 0 <= i < accounts.len()
            &&& accounts[i]@ == address
            &&& forall|j: int| 0 <= j < i ==> accounts[j]@ != address
        },
        position_of(accounts, address) is None ==> forall|j: int|
            0 <= j < accounts.len() ==> accounts[j]@ != address,
    decreases accounts.len(),
{
    if accounts.len() > 0 {
        let prefix = accounts.drop_last();
        lemma_position_of(prefix, address);
        assert(forall|j: int| 0 <= j < prefix.len() ==> prefix[j] == accounts[j]);
    }
}

/// The index, as a `u8`, of the program `address` among the transaction's
/// accounts: `None` where it is absent or its index does not fit in a `u8`.
pub open spec fn program_index(tx: Transaction, address: Seq<char>) -> Option<u8> {
    match position_of(all_accounts(tx), address) {
        Some(i) => if i < 256 {
            Some(i as u8)
        } else {
            None
        },
        None => None,
    }
}

/// The instructions of `ixs` that invoke the program at index `program`, in
/// order.
pub open spec fn program_instructions(ixs: Seq<Instruction>, program: u8) -> Seq<Instruction>
    decreases ixs.len(),
{
    if ixs.len() == 0 {
        seq![]
    } else {
        let rest = program_instructions(ixs.drop_last(), program);
        if ixs.last().program_id_index == program {
            rest.push(ixs.last())
        } else {
            rest
        }
    }
}

/// All inner instructions of a transaction, group after group.
pub open spec fn flat_inner(groups: Seq<InnerInstructions>) -> Seq<Instruction>
    decreases groups.len(),
{
    if groups.len() == 0 {
        seq![]
    } else {
        flat_inner(groups.drop_last()) + groups.last().instructions@
    }
}

/// The inner instructions of a transaction that invoke the program at index
/// `program`; none where the transaction records no inner instructions.
pub open spec fn program_inner_instructions(tx: Transaction, program: u8) -> Seq<Instruction> {
    match tx.meta.inner_instructions {
        Some(groups) => program_instructions(flat_inner(groups@), program),
        None => seq![],
    }
}

/// The instructions collected for a program are exactly the instructions that
/// invoke it, in their order.
pub proof fn lemma_program_instructions_are_filter(ixs: Seq<Instruction>, program: u8)
    ensures
        program_instructions(ixs, program) == ixs.filter(
            |ix: Instruction| ix.program_id_index == program,
        ),
    decreases ixs.len(),
{
    reveal(Seq::filter);
    if ixs.len() > 0 {
        lemma_program_instructions_are_filter(ixs.drop_last(), program);
    }
}

/// The index found for a program is that of its first occurrence among all
/// accounts; where none is found, the program is not among the first 256.
pub proof fn lemma_program_index_is_first_occurrence(tx: Transaction, address: Seq<char>)
    ensures
        program_index(tx, address) matches Some(i) ==> {
            &&& (i as int) < all_accounts(tx).len()
            &&& all_accounts(tx)[i as int]@ == address
            &&& forall|j: int| 0 <= j < i ==> all_accounts(tx)[j]@ != address
        },
        program_index(tx, address) is None ==> forall|j: int|
            0 <= j < all_accounts(tx).len() && j < 256 ==> all_accounts(tx)[j]@ != address,
{
    lemma_position_of(all_accounts(tx), address);
}

/// The instructions that a sequence of references points to.
pub open spec fn deref_all<T>(s: Seq<&T>) -> Seq<T> {
    s.map_values(|x: &T| *x)
}

/// Collects all accounts: account keys, then loaded writable, then loaded
/// read-only addresses.
pub fn get_accounts(tx: &Transaction) -> (accounts: Vec<&String>)
    ensures
        deref_all(accounts@) == all_accounts(*tx),
{
    let keys = &tx.transaction.message.account_keys;
    let writable = &tx.meta.loaded_addresses.writable;
    let readonly = &tx.meta.loaded_addresses.readonly;
    let mut out: Vec<&String> = Vec::new();
    let mut i: usize = 0;
    while i < keys.len()
        invariant
            0 <= i <= keys@.len(),
            deref_all(out@) == keys@.take(i as int),
        decreases keys@.len() - i,
    {
        out.push(&keys[i]);
        assert(keys@.take(i + 1) == keys@.take(i as int).push(keys@[i as int]));
        i = i + 1;
    }
    assert(keys@.take(keys@.len() as int) == keys@);
    let mut i: usize = 0;
    while i < writable.len()
        invariant
            0 <= i <= writable@.len(),
            deref_all(out@) == keys@ + writable@.take(i as int),
        decreases writable@.len() - i,
    {
        out.push(&writable[i]);
        assert(writable@.take(i + 1) == writable@.take(i as int).push(writable@[i as int]));
        assert(keys@ + writable@.take(i + 1) == (keys@ + writable@.take(i as int)).push(
            writable@[i as int],
        ));
        i = i + 1;
    }
    assert(writable@.take(writable@.len() as int) == writable@);
    let mut i: usize = 0;
    while i < readonly.len()
        invariant
            0 <= i <= readonly@.len(),
            deref_all(out@) == keys@ + writable@ + readonly@.take(i as int),
        decreases readonly@.len() - i,
    {
        out.push(&readonly[i]);
        assert(readonly@.take(i + 1) == readonly@.take(i as int).push(readonly@[i as int]));
        assert(keys@ + writable@ + readonly@.take(i + 1) == (keys@ + writable@ + readonly@.take(
            i as int,
        )).push(readonly@[i as int]));
        i = i + 1;
    }
    assert(readonly@.take(readonly@.len() as int) == readonly@);
    out
}

/// Finds the index of the program `program_address` among all accounts;
/// `None` where it is absent or sits past index 255.
pub fn find_program_index(tx: &Transaction, program_address: &str) -> (index: Option<u8>)
    ensures
        index == program_index(*tx, program_address@),
{
    let accounts = get_accounts(tx);
    let ghost all = all_accounts(*tx);
    let mut i: usize = 0;
    while i < accounts.len()
        invariant
            0 <= i <= accounts@.len(),
            deref_all(accounts@) == all,
            all == all_accounts(*tx),
            position_of(all.take(i as int), program_address@) is None,
        decreases accounts@.len() - i,
    {
        assert(all.take(i + 1).drop_last() == all.take(i as int));
        assert(*accounts@[i as int] == all[i as int]);
        if str_eq(accounts[i].as_str(), program_address) {
            assert(position_of(all.take(i + 1), program_address@) == Some(i as int));
            proof {
                lemma_position_prefix(all, program_address@, i + 1);
            }
            if i < 256 {
                return Some(i as u8);
            } else {
                return None;
            }
        }
        i = i + 1;
    }
    assert(all.take(accounts@.len() as int) == all);
    None
}

/// A first match inside a prefix is the first match of the whole sequence.
pub proof fn lemma_position_prefix(s: Seq<String>, address: Seq<char>, n: int)
    requires
        0 <= n <= s.len(),
        position_of(s.take(n), address) is Some,
    ensures
        position_of(s, address) == position_of(s.take(n), address),
    decreases s.len() - n,
{
    if n < s.len() {
        assert(s.take(n + 1).drop_last() == s.take(n));
        lemma_position_prefix(s, address, n + 1);
    } else {
        assert(s.take(n) == s);
    }
}

/// Returns all outer and all inner instructions that invoke the program at
/// index `program_index`, each in transaction order.
pub fn collect_program_instructions<'a>(tx: &'a Transaction, program_index: u8) -> (r: (
    Vec<&'a Instruction>,
    Vec<&'a Instruction>,
))
    ensures
        deref_all(r.0@) == program_instructions(tx.transaction.message.instructions@, program_index),
        deref_all(r.1@) == program_inner_instructions(*tx, program_index),
{
    let ixs = &tx.transaction.message.instructions;
    let mut outer: Vec<&Instruction> = Vec::new();
    let mut i: usize = 0;
    while i < ixs.len()
        invariant
            0 <= i <= ixs@.len(),
            deref_all(outer@) == program_instructions(ixs@.take(i as int), program_index),
        decreases ixs@.len() - i,
    {
        assert(ixs@.take(i + 1).drop_last() == ixs@.take(i as int));
        if ixs[i].program_id_index == program_index {
            outer.push(&ixs[i]);
        }
        i = i + 1;
    }
    assert(ixs@.take(ixs@.len() as int) == ixs@);
    let mut inner: Vec<&Instruction> = Vec::new();
    match &tx.meta.inner_instructions {
        Some(groups) => {
            let mut g: usize = 0;
            while g < groups.len()
                invariant
                    0 <= g <= groups@.len(),
                    deref_all(inner@) == program_instructions(
                        flat_inner(groups@.take(g as int)),
                        program_index,
                    ),
                decreases groups@.len() - g,
            {
                let group = &groups[g].instructions;
                let ghost before = flat_inner(groups@.take(g as int));
                let mut k: usize = 0;
                while k < group.len()
                    invariant
                        0 <= k <= group@.len(),
                        deref_all(inner@) == program_instructions(
                            before + group@.take(k as int),
                            program_index,
                        ),
                    decreases group@.len() - k,
                {
                    assert((before + group@.take(k + 1)).drop_last() == before + group@.take(
                        k as int,
                    ));
                    if group[k].program_id_index == program_index {
                        inner.push(&group[k]);
                    }
                    k = k + 1;
                }
                assert(groups@.take(g + 1).drop_last() == groups@.take(g as int));
                assert(group@.take(group@.len() as int) == group@);
                g = g + 1;
            }
            assert(groups@.take(groups@.len() as int) == groups@);
        },
        None => {},
    }
    (outer, inner)
}

/// The outer and inner instructions of the program `address`, where the
/// transaction names it within its first 256 accounts.
pub open spec fn program_instruction_lists(tx: Transaction, address: Seq<char>) -> Option<
    (Seq<Instruction>, Seq<Instruction>),
> {
    match program_index(tx, address) {
        Some(p) => Some(
            (
                program_instructions(tx.transaction.message.instructions@, p),
                program_inner_instructions(tx, p),
            ),
        ),
        None => None,
    }
}

/// Collects the program's instructions by its address: `None` where
/// [`find_program_index`] finds no index, else [`collect_program_instructions`]
/// for that index.
pub fn collect_instructions<'a>(tx: &'a Transaction, program_address: &str) -> (r: Option<
    (Vec<&'a Instruction>, Vec<&'a Instruction>),
>)
    ensures
        r is Some <==> program_instruction_lists(*tx, program_address@) is Some,
        r matches Some((outer, inner)) ==> program_instruction_lists(*tx, program_address@)
            == Some((deref_all(outer@), deref_all(inner@))),
{
    let program_index = match find_program_index(tx, program_address) {
        Some(i) => i,
        None => return None,
    };
    Some(collect_program_instructions(tx, program_index))
}

} // verus!
