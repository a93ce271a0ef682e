//! Matching instructions against an IDL and naming their accounts.
use vstd::prelude::*;

use crate::error::ParseError;
use crate::idl::account_map::{lemma_pairs_map_addresses, pairs_map, pairs_view, AccountMap};
use crate::idl::collect::{all_accounts, deref_all, get_accounts};
use crate::text::{decimal, decimal_string};
use crate::types::block_notification::{Instruction, Transaction};
use crate::types::pump_idl::{IdlAccount, Instruction as IdlInstruction, PumpIdl};

verus! {

/// An instruction of a transaction matched to the IDL: the IDL's name for it,
/// a label saying where it stands, its position among the program's outer or
/// inner instructions, and its accounts by IDL name.
#[derive(Debug)]
pub struct InstructionContext {
    pub ix_name: String,
    pub label: String,
    pub ix_index: usize,
    pub is_inner: bool,
    pub accounts: AccountMap,
}

/// The value of an [`InstructionContext`].
pub struct SpecInstructionContext {
    pub ix_name: Seq<char>,
    pub label: Seq<char>,
    pub ix_index: usize,
    pub is_inner: bool,
    pub accounts: Map<Seq<char>, Seq<char>>,
}

impl View for InstructionContext {
    type V = SpecInstructionContext;

    open spec fn view(&self) -> SpecInstructionContext {
        SpecInstructionContext {
            ix_name: self.ix_name@,
            label: self.label@,
            ix_index: self.ix_index,
            is_inner: self.is_inner,
            accounts: self.accounts@,
        }
    }
}

impl Clone for InstructionContext {
    fn clone(&self) -> (copy: Self)
        ensures
            copy@ == self@,
    {
        InstructionContext {
            ix_name: self.ix_name.clone(),
            label: self.label.clone(),
            ix_index: self.ix_index,
            is_inner: self.is_inner,
            accounts: self.accounts.clone(),
        }
    }
}

/// The name of an IDL account slot, `"<unknown>"` where the IDL gives none.
pub open spec fn account_name(slot: IdlAccount) -> Seq<char> {
    match slot.name {
        Some(n) => n@,
        None => "<unknown>"@,
    }
}

/// The (IDL name, address) pairs of an instruction: for the `i`-th IDL slot,
/// the address of the account that the instruction's `i`-th account index
/// points to, skipping slots whose index is missing or out of range.
pub open spec fn mapped_accounts(
    accounts: Seq<String>,
    indices: Seq<u8>,
    slots: Seq<IdlAccount>,
) -> Seq<(Seq<char>, Seq<char>)>
    decreases slots.len(),
{
    if slots.len() == 0 {
        seq![]
    } else {
        let i = slots.len() - 1;
        let rest = mapped_accounts(accounts, indices, slots.drop_last());
        if i < indices.len() && (indices[i] as int) < accounts.len() {
            rest.push((account_name(slots[i]), accounts[indices[i] as int]@))
        } else {
            rest
        }
    }
}

/// Each mapped address is one of the transaction's accounts.
pub proof fn lemma_mapped_accounts_from(accounts: Seq<String>, indices: Seq<u8>, slots: Seq<IdlAccount>)
    ensures
        forall|k: int|
            0 <= k < mapped_accounts(accounts, indices, slots).len() ==> exists|i: int|
                0 <= i < accounts.len() && #[trigger] mapped_accounts(accounts, indices, slots)[k].1
                    == accounts[i]@,
    decreases slots.len(),
{
    if slots.len() > 0 {
        lemma_mapped_accounts_from(accounts, indices, slots.drop_last());
        let prev = mapped_accounts(accounts, indices, slots.drop_last());
        let all = mapped_accounts(accounts, indices, slots);
        assert forall|k: int| 0 <= k < all.len() implies exists|i: int|
            0 <= i < accounts.len() && #[trigger] all[k].1 == accounts[i]@ by {
            if k < prev.len() {
                assert(all[k] == prev[k]);
            } else {
                let i = slots.len() - 1;
                assert(all[k].1 == accounts[indices[i] as int]@);
            }
        }
    }
}

/// Every address in the account map of a matched instruction is the address
/// of one of the transaction's accounts.
pub proof fn lemma_context_accounts_from_transaction(
    tx: Transaction,
    ix: Instruction,
    idl: PumpIdl,
    label: Seq<char>,
    ix_index: usize,
    is_inner: bool,
)
    ensures
        spec_match_and_collect(tx, ix, idl, label, ix_index, is_inner) matches Ok(Some(c))
            ==> forall|name: Seq<char>| #[trigger]
            c.accounts.contains_key(name) ==> exists|i: int|
                0 <= i < all_accounts(tx).len() && c.accounts[name] == all_accounts(tx)[i]@,
{
    if let Ok(Some(c)) = spec_match_and_collect(tx, ix, idl, label, ix_index, is_inner) {
        let data = base58_decoded(ix.data@)->0;
        let j = matched_index(idl.instructions@, data)->0;
        let pairs = mapped_accounts(all_accounts(tx), ix.accounts@, idl.instructions@[j].accounts@);
        lemma_mapped_accounts_from(all_accounts(tx), ix.accounts@, idl.instructions@[j].accounts@);
        assert forall|name: Seq<char>| #[trigger] c.accounts.contains_key(name) implies exists|i: int|
            0 <= i < all_accounts(tx).len() && c.accounts[name] == all_accounts(tx)[i]@ by {
            lemma_pairs_map_addresses(pairs, name);
            let k = choose|k: int| 0 <= k < pairs.len() && #[trigger] pairs[k] == (
                name,
                pairs_map(pairs)[name],
            );
            assert(pairs[k].1 == c.accounts[name]);
        }
    }
}

/// Slot `i` of `slots` names an account: the instruction has an `i`-th account
/// index and it points into `accounts`.
pub open spec fn slot_mapped(accounts: Seq<String>, indices: Seq<u8>, i: int) -> bool {
    0 <= i < indices.len() && (indices[i] as int) < accounts.len()
}

/// The account map of an instruction, stated on its IDL slots: each slot that
/// names an account and is the last such slot with its name maps that name to
/// the address the instruction's index for it points to; every name in the map
/// is the name of such a slot.
pub proof fn lemma_mapped_accounts_rule(accounts: Seq<String>, indices: Seq<u8>, slots: Seq<IdlAccount>)
    ensures
        forall|i: int|
            #![trigger slots[i]]
            0 <= i < slots.len() && slot_mapped(accounts, indices, i) && (forall|j: int|
                i < j < slots.len() && slot_mapped(accounts, indices, j) ==> account_name(
                    #[trigger] slots[j],
                ) != account_name(slots[i])) ==> pairs_map(
                mapped_accounts(accounts, indices, slots),
            ).get(account_name(slots[i])) == Some(accounts[indices[i] as int]@),
        forall|name: Seq<char>|
            #[trigger] pairs_map(mapped_accounts(accounts, indices, slots)).contains_key(name)
                ==> exists|i: int|
                #![trigger slots[i]]
                0 <= i < slots.len() && slot_mapped(accounts, indices, i) && account_name(slots[i])
                    == name,
    decreases slots.len(),
{
    if slots.len() > 0 {
        let prefix = slots.drop_last();
        lemma_mapped_accounts_rule(accounts, indices, prefix);
        let last = slots.len() - 1;
        let m = pairs_map(mapped_accounts(accounts, indices, slots));
        let pm = pairs_map(mapped_accounts(accounts, indices, prefix));
        assert(forall|i: int| 0 <= i < prefix.len() ==> prefix[i] == slots[i]);
        if slot_mapped(accounts, indices, last) {
            assert(mapped_accounts(accounts, indices, slots).drop_last() == mapped_accounts(
                accounts,
                indices,
                prefix,
            ));
            assert(m == pm.insert(account_name(slots[last]), accounts[indices[last] as int]@));
        } else {
            assert(m == pm);
        }
        assert forall|i: int|
            #![trigger slots[i]]
            0 <= i < slots.len() && slot_mapped(accounts, indices, i) && (forall|j: int|
                i < j < slots.len() && slot_mapped(accounts, indices, j) ==> account_name(
                    #[trigger] slots[j],
                ) != account_name(slots[i])) implies m.get(account_name(slots[i])) == Some(
            accounts[indices[i] as int]@,
        ) by {
            if i < last {
                assert(prefix[i] == slots[i]);
                assert forall|j: int|
                    i < j < prefix.len() && slot_mapped(accounts, indices, j) implies account_name(
                    #[trigger] prefix[j],
                ) != account_name(prefix[i]) by {
                    assert(prefix[j] == slots[j]);
                }
                if slot_mapped(accounts, indices, last) {
                    assert(account_name(slots[last]) != account_name(slots[i]));
                }
            }
        }
        assert forall|name: Seq<char>| #[trigger] m.contains_key(name) implies exists|i: int|
            #![trigger slots[i]]
            0 <= i < slots.len() && slot_mapped(accounts, indices, i) && account_name(slots[i])
                == name by {
            if pm.contains_key(name) {
                let i = choose|i: int|
                    #![trigger prefix[i]]
                    0 <= i < prefix.len() && slot_mapped(accounts, indices, i) && account_name(
                        prefix[i],
                    ) == name;
                assert(prefix[i] == slots[i]);
            } else {
                assert(account_name(slots[last]) == name);
            }
        }
    }
}

/// Maps the instruction's accounts: IDL account name to the account's address.
pub fn map_ix_accounts(tx: &Transaction, ix: &Instruction, idl_ix: &IdlInstruction) -> (mapped: Vec<
    (String, String),
>)
    ensures
        pairs_view(mapped@) == mapped_accounts(all_accounts(*tx), ix.accounts@, idl_ix.accounts@),
{
    let accounts = get_accounts(tx);
    let ghost all = all_accounts(*tx);
    let mut mapped: Vec<(String, String)> = Vec::new();
    let mut i: usize = 0;
    while i < idl_ix.accounts.len()
        invariant
            0 <= i <= idl_ix.accounts@.len(),
            deref_all(accounts@) == all,
            pairs_view(mapped@) == mapped_accounts(all, ix.accounts@, idl_ix.accounts@.take(i as int)),
        decreases idl_ix.accounts@.len() - i,
    {
        assert(idl_ix.accounts@.take(i + 1).drop_last() == idl_ix.accounts@.take(i as int));
        if i < ix.accounts.len() {
            let idx = ix.accounts[i] as usize;
            if idx < accounts.len() {
                let name = match &idl_ix.accounts[i].name {
                    Some(n) => n.clone(),
                    None => "<unknown>".to_owned(),
                };
                assert(*accounts@[idx as int] == all[idx as int]);
                let address = accounts[idx].clone();
                let ghost before = mapped@;
                mapped.push((name, address));
                assert(pairs_view(mapped@) == pairs_view(before).push(
                    (name@, address@),
                ));
            }
        }
        i = i + 1;
    }
    assert(idl_ix.accounts@.take(idl_ix.accounts@.len() as int) == idl_ix.accounts@);
    mapped
}

/// The index of the first IDL instruction whose discriminator is `disc`.
pub open spec fn discriminator_index(ixs: Seq<IdlInstruction>, disc: Seq<u8>) -> Option<int>
    decreases ixs.len(),
{
    if ixs.len() == 0 {
        None
    } else {
        match discriminator_index(ixs.drop_last(), disc) {
            Some(j) => Some(j),
            None => if ixs.last().discriminator@ == disc {
                Some(ixs.len() - 1)
            } else {
                None
            },
        }
    }
}

/// The IDL instruction that decoded instruction data `data` selects: the first
/// whose discriminator equals the data's first eight bytes.
pub open spec fn matched_index(ixs: Seq<IdlInstruction>, data: Seq<u8>) -> Option<int> {
    if data.len() < 8 {
        None
    } else {
        discriminator_index(ixs, data.take(8))
    }
}

proof fn lemma_discriminator_index_prefix(ixs: Seq<IdlInstruction>, disc: Seq<u8>, n: int)
    requires
        0 <= n <= ixs.len(),
        discriminator_index(ixs.take(n), disc) is Some,
    ensures
        discriminator_index(ixs, disc) == discriminator_index(ixs.take(n), disc),
    decreases ixs.len() - n,
{
    if n < ixs.len() {
        assert(ixs.take(n + 1).drop_last() == ixs.take(n));
        lemma_discriminator_index_prefix(ixs, disc, n + 1);
    } else {
        assert(ixs.take(n) == ixs);
    }
}

/// Whether two byte slices are equal.
fn bytes_eq(a: &[u8], b: &[u8]) -> (eq: bool)
    ensures
        eq == (a@ == b@),
{
    if a.len() != b.len() {
        return false;
    }
    let mut i: usize = 0;
    while i < a.len()
        invariant
            0 <= i <= a@.len(),
            a@.len() == b@.len(),
            forall|j: int| 0 <= j < i ==> a@[j] == b@[j],
        decreases a@.len() - i,
    {
        if a[i] != b[i] {
            return false;
        }
        i = i + 1;
    }
    assert(a@ =~= b@);
    true
}

/// The IDL instruction that decoded instruction data selects, if any.
pub fn find_idl_instruction<'a>(data: &[u8], idl: &'a PumpIdl) -> (found: Option<&'a IdlInstruction>)
    ensures
        match matched_index(idl.instructions@, data@) {
            Some(j) => found matches Some(x) && *x == idl.instructions@[j],
            None => found is None,
        },
{
    if data.len() < 8 {
        return None;
    }
    let disc = vstd::slice::slice_subrange(data, 0, 8);
    assert(disc@ == data@.take(8));
    let ixs = &idl.instructions;
    let mut i: usize = 0;
    while i < ixs.len()
        invariant
            0 <= i <= ixs@.len(),
            disc@ == data@.take(8),
            data@.len() >= 8,
            *ixs == idl.instructions,
            discriminator_index(ixs@.take(i as int), disc@) is None,
        decreases ixs@.len() - i,
    {
        assert(ixs@.take(i + 1).drop_last() == ixs@.take(i as int));
        if bytes_eq(ixs[i].discriminator.as_slice(), disc) {
            assert(ixs@.take(i + 1).last() == ixs@[i as int]);
            assert(discriminator_index(ixs@.take(i + 1), disc@) == Some(i as int));
            proof {
                lemma_discriminator_index_prefix(ixs@, disc@, i + 1);
            }
            return Some(&ixs[i]);
        }
        i = i + 1;
    }
    assert(ixs@.take(ixs@.len() as int) == ixs@);
    None
}

/// The bytes that the Base58 text `text` (Bitcoin alphabet) decodes to, as the
/// `bs58` crate decodes it, or `None` where it rejects the text.
pub uninterp spec fn base58_decoded(text: Seq<char>) -> Option<Seq<u8>>;

/// Decodes with `bs58::decode(..).into_vec()`; its result is named
/// `base58_decoded`. Which error comes back on a rejection is not stated.
#[verifier::external_body]
fn bs58_decode(text: &str) -> (bytes: Result<Vec<u8>, bs58::decode::Error>)
    ensures
        bytes is Ok <==> base58_decoded(text@) is Some,
        bytes matches Ok(b) ==> base58_decoded(text@) == Some(b@),
{
    bs58::decode(text).into_vec()
}

/// Decodes the instruction's Base58 data, takes its discriminator and finds the
/// matching IDL instruction; gives it with the decoded data.
pub fn match_instruction<'a>(ix: &Instruction, idl: &'a PumpIdl) -> (r: Result<
    Option<(&'a IdlInstruction, Vec<u8>)>,
    bs58::decode::Error,
>)
    ensures
        match base58_decoded(ix.data@) {
            None => r is Err,
            Some(data) => match matched_index(idl.instructions@, data) {
                None => r matches Ok(None),
                Some(j) => r matches Ok(Some((x, bytes))) && *x == idl.instructions@[j] && bytes@
                    == data,
            },
        },
{
    let decoded = match bs58_decode(ix.data.as_str()) {
        Ok(d) => d,
        Err(e) => return Err(e),
    };
    match find_idl_instruction(decoded.as_slice(), idl) {
        Some(idl_ix) => Ok(Some((idl_ix, decoded))),
        None => Ok(None),
    }
}

/// The context that matching `ix` against the IDL gives, labelled `label`:
/// `Err(())` where its data is not Base58, `Ok(None)` where no IDL instruction
/// matches.
pub open spec fn spec_match_and_collect(
    tx: Transaction,
    ix: Instruction,
    idl: PumpIdl,
    label: Seq<char>,
    ix_index: usize,
    is_inner: bool,
) -> Result<Option<SpecInstructionContext>, ()> {
    match base58_decoded(ix.data@) {
        None => Err(()),
        Some(data) => match matched_index(idl.instructions@, data) {
            None => Ok(None),
            Some(j) => Ok(
                Some(
                    SpecInstructionContext {
                        ix_name: idl.instructions@[j].name@,
                        label,
                        ix_index,
                        is_inner,
                        accounts: pairs_map(
                            mapped_accounts(
                                all_accounts(tx),
                                ix.accounts@,
                                idl.instructions@[j].accounts@,
                            ),
                        ),
                    },
                ),
            ),
        },
    }
}

/// What `discriminator_index` finds: the first instruction with that
/// discriminator, or none where no instruction has it.
proof fn lemma_discriminator_index(ixs: Seq<IdlInstruction>, disc: Seq<u8>)
    ensures
        discriminator_index(ixs, disc) matches Some(j) ==> {
            &&& 0 <= j < ixs.len()
            &&& ixs[j].discriminator@ == disc
            &&& forall|l: int| 0 <= l < j ==> (#[trigger] ixs[l]).discriminator@ != disc
        },
        discriminator_index(ixs, disc) is None <==> forall|l: int|
            0 <= l < ixs.len() ==> (#[trigger] ixs[l]).discriminator@ != disc,
    decreases ixs.len(),
{
    if ixs.len() > 0 {
        let prefix = ixs.drop_last();
        lemma_discriminator_index(prefix, disc);
        assert(forall|l: int| 0 <= l < prefix.len() ==> prefix[l] == ixs[l]);
    }
}

/// Matching an instruction, stated on its decoded data and the IDL: data that
/// is not Base58 is an error; otherwise the instruction matches exactly when
/// some IDL instruction's discriminator equals the data's first eight bytes,
/// and then its context carries the name of the first such IDL instruction,
/// the label, position and kind it was given, and that IDL instruction's
/// account slots mapped as [`lemma_mapped_accounts_rule`] states.
pub proof fn lemma_match_and_collect_rule(
    tx: Transaction,
    ix: Instruction,
    idl: PumpIdl,
    label: Seq<char>,
    ix_index: usize,
    is_inner: bool,
)
    ensures
        base58_decoded(ix.data@) is None ==> spec_match_and_collect(
            tx,
            ix,
            idl,
            label,
            ix_index,
            is_inner,
        ) is Err,
        base58_decoded(ix.data@) matches Some(data) ==> {
            let r = spec_match_and_collect(tx, ix, idl, label, ix_index, is_inner);
            let ixs = idl.instructions@;
            &&& r is Ok
            &&& (r matches Ok(None)) <==> (data.len() < 8 || forall|l: int|
                0 <= l < ixs.len() ==> (#[trigger] ixs[l]).discriminator@ != data.take(8))
            &&& r matches Ok(Some(c)) ==> exists|j: int|
                #![trigger ixs[j]]
                0 <= j < ixs.len() && data.len() >= 8 && ixs[j].discriminator@ == data.take(8)
                    && (forall|l: int| 0 <= l < j ==> (#[trigger] ixs[l]).discriminator@ != data.take(8))
                    && c.ix_name == ixs[j].name@ && c.label == label && c.ix_index == ix_index
                    && c.is_inner == is_inner && c.accounts == pairs_map(
                    mapped_accounts(all_accounts(tx), ix.accounts@, ixs[j].accounts@),
                )
        },
{
    if let Some(data) = base58_decoded(ix.data@) {
        let ixs = idl.instructions@;
        if data.len() >= 8 {
            lemma_discriminator_index(ixs, data.take(8));
        }
    }
}

/// Matches `ix` against the IDL and, where it matches, builds its context with
/// its accounts named.
pub fn match_and_collect(
    tx: &Transaction,
    ix: &Instruction,
    idl: &PumpIdl,
    label: String,
    ix_index: usize,
    is_inner: bool,
) -> (r: Result<Option<InstructionContext>, ParseError>)
    ensures
        match spec_match_and_collect(*tx, *ix, *idl, label@, ix_index, is_inner) {
            Err(()) => r matches Err(ParseError::InvalidBase58(_)),
            Ok(None) => r matches Ok(None),
            Ok(Some(c)) => r matches Ok(Some(ctx)) && ctx@ == c,
        },
{
    let (idl_ix, _decoded) = match match_instruction(ix, idl) {
        Ok(Some(found)) => found,
        Ok(None) => return Ok(None),
        Err(e) => return Err(ParseError::InvalidBase58(e)),
    };
    let mapped = map_ix_accounts(tx, ix, idl_ix);
    let mut accounts = AccountMap::new();
    let mut i: usize = 0;
    while i < mapped.len()
        invariant
            0 <= i <= mapped@.len(),
            accounts@ == pairs_map(pairs_view(mapped@).take(i as int)),
        decreases mapped@.len() - i,
    {
        assert(pairs_view(mapped@).take(i + 1).drop_last() == pairs_view(mapped@).take(i as int));
        accounts.insert(mapped[i].0.clone(), mapped[i].1.clone());
        i = i + 1;
    }
    assert(pairs_view(mapped@).take(mapped@.len() as int) == pairs_view(mapped@));
    Ok(
        Some(
            InstructionContext {
                ix_name: idl_ix.name.clone(),
                label,
                ix_index,
                is_inner,
                accounts,
            },
        ),
    )
}

/// The label of the `idx`-th outer or inner instruction of transaction
/// `tx_idx`: `"tx #<tx_idx> outer #<idx>"` or `"tx #<tx_idx> inner #<idx>"`.
pub open spec fn instruction_label(tx_idx: usize, is_inner: bool, idx: usize) -> Seq<char> {
    "tx #"@ + decimal(tx_idx as nat) + (if is_inner {
        " inner #"@
    } else {
        " outer #"@
    }) + decimal(idx as nat)
}

fn make_label(tx_idx: usize, is_inner: bool, idx: usize) -> (label: String)
    ensures
        label@ == instruction_label(tx_idx, is_inner, idx),
{
    let mut label = "tx #".to_owned();
    let tx_text = decimal_string(tx_idx);
    label.append(tx_text.as_str());
    if is_inner {
        label.append(" inner #");
    } else {
        label.append(" outer #");
    }
    let idx_text = decimal_string(idx);
    label.append(idx_text.as_str());
    label
}

/// The contexts of the instructions `ixs` of one kind (outer or inner) that
/// match the IDL, in order; `Err(())` where the data of one of them is not
/// Base58.
pub open spec fn contexts_of(
    tx: Transaction,
    idl: PumpIdl,
    ixs: Seq<Instruction>,
    tx_idx: usize,
    is_inner: bool,
) -> Result<Seq<SpecInstructionContext>, ()>
    decreases ixs.len(),
{
    if ixs.len() == 0 {
        Ok(seq![])
    } else {
        let idx = (ixs.len() - 1) as usize;
        match contexts_of(tx, idl, ixs.drop_last(), tx_idx, is_inner) {
            Err(()) => Err(()),
            Ok(prev) => match spec_match_and_collect(
                tx,
                ixs.last(),
                idl,
                instruction_label(tx_idx, is_inner, idx),
                idx,
                is_inner,
            ) {
                Err(()) => Err(()),
                Ok(None) => Ok(prev),
                Ok(Some(c)) => Ok(prev.push(c)),
            },
        }
    }
}

/// The contexts of a transaction's outer, then inner, program instructions.
pub open spec fn spec_collect_contexts(
    tx: Transaction,
    idl: PumpIdl,
    outer: Seq<Instruction>,
    inner: Seq<Instruction>,
    tx_idx: usize,
) -> Result<Seq<SpecInstructionContext>, ()> {
    match contexts_of(tx, idl, outer, tx_idx, false) {
        Err(()) => Err(()),
        Ok(a) => match contexts_of(tx, idl, inner, tx_idx, true) {
            Err(()) => Err(()),
            Ok(b) => Ok(a + b),
        },
    }
}

/// The views of a sequence of contexts.
pub open spec fn contexts_view(s: Seq<InstructionContext>) -> Seq<SpecInstructionContext> {
    s.map_values(|c: InstructionContext| c@)
}

/// Appends the contexts of `ixs` to `out`; stops with the error where an
/// instruction's data is not Base58.
fn push_contexts(
    out: &mut Vec<InstructionContext>,
    tx: &Transaction,
    idl: &PumpIdl,
    ixs: &[&Instruction],
    tx_idx: usize,
    is_inner: bool,
) -> (r: Result<(), ParseError>)
    ensures
        match contexts_of(*tx, *idl, deref_all(ixs@), tx_idx, is_inner) {
            Err(()) => r matches Err(ParseError::InvalidBase58(_)),
            Ok(cs) => r is Ok && contexts_view(final(out)@) == contexts_view(old(out)@) + cs,
        },
{
    let ghost start = contexts_view(out@);
    let ghost all = deref_all(ixs@);
    let mut idx: usize = 0;
    while idx < ixs.len()
        invariant
            0 <= idx <= ixs@.len(),
            all == deref_all(ixs@),
            contexts_of(*tx, *idl, all.take(idx as int), tx_idx, is_inner) matches Ok(cs)
                && contexts_view(out@) == start + cs,
        decreases ixs@.len() - idx,
    {
        assert(all.take(idx + 1).drop_last() == all.take(idx as int));
        assert(all.take(idx + 1).last() == *ixs@[idx as int]);
        let label = make_label(tx_idx, is_inner, idx);
        match match_and_collect(tx, ixs[idx], idl, label, idx, is_inner) {
            Ok(Some(ctx)) => {
                let ghost before = out@;
                out.push(ctx);
                assert(contexts_view(out@) == contexts_view(before).push(ctx@));
            },
            Ok(None) => {},
            Err(e) => {
                proof {
                    lemma_contexts_of_err(*tx, *idl, all, tx_idx, is_inner, idx + 1);
                }
                return Err(e);
            },
        }
        idx = idx + 1;
    }
    assert(all.take(ixs@.len() as int) == all);
    Ok(())
}

/// An error among the first `n` instructions is an error of them all.
proof fn lemma_contexts_of_err(
    tx: Transaction,
    idl: PumpIdl,
    ixs: Seq<Instruction>,
    tx_idx: usize,
    is_inner: bool,
    n: int,
)
    requires
        0 <= n <= ixs.len(),
        contexts_of(tx, idl, ixs.take(n), tx_idx, is_inner) is Err,
    ensures
        contexts_of(tx, idl, ixs, tx_idx, is_inner) is Err,
    decreases ixs.len() - n,
{
    if n < ixs.len() {
        assert(ixs.take(n + 1).drop_last() == ixs.take(n));
        lemma_contexts_of_err(tx, idl, ixs, tx_idx, is_inner, n + 1);
    } else {
        assert(ixs.take(n) == ixs);
    }
}

/// Collects the contexts of the program's outer, then inner, instructions
/// (already filtered by program), labelled with the transaction's index.
pub fn collect_contexts<'a>(
    tx: &'a Transaction,
    idl: &PumpIdl,
    outer_instructions: &[&'a Instruction],
    inner_instructions: &[&'a Instruction],
    tx_idx: usize,
) -> (r: Result<Vec<InstructionContext>, ParseError>)
    ensures
        match spec_collect_contexts(
            *tx,
            *idl,
            deref_all(outer_instructions@),
            deref_all(inner_instructions@),
            tx_idx,
        ) {
            Err(()) => r matches Err(ParseError::InvalidBase58(_)),
            Ok(cs) => r matches Ok(out) && contexts_view(out@) == cs,
        },
{
    let mut out: Vec<InstructionContext> = Vec::new();
    assert(contexts_view(out@) =~= seq![]);
    match push_contexts(&mut out, tx, idl, outer_instructions, tx_idx, false) {
        Ok(()) => {},
        Err(e) => return Err(e),
    }
    match push_contexts(&mut out, tx, idl, inner_instructions, tx_idx, true) {
        Ok(()) => {},
        Err(e) => return Err(e),
    }
    Ok(out)
}

} // verus!
