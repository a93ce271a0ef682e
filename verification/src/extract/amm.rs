//! The AMM pipeline for one block: find the program's instructions, match them
//! against the IDL, decode the events in the logs and join the two.
use vstd::prelude::*;

use crate::decode::amm::{decode_amm_event_from_log, spec_amm_log_event};
use crate::error::ParseError;
use crate::idl::collect::{collect_instructions, program_instruction_lists};
use crate::idl::match_ix::{collect_contexts, contexts_view, spec_collect_contexts};
use crate::join::join_amm::{
    amm_actions_view, amm_events_view, amm_ix_matches, amm_joined_positions, join_amm_ix_and_events,
    lemma_amm_join_keeps_emitted_events, spec_join_amm, AmmEventContext, JoinedAmmAction,
    SpecAmmEventContext, SpecJoinedAmmAction,
};
use crate::types::block_notification::{BlockNotification, Transaction};
use crate::types::pump_idl::PumpIdl;

verus! {

/// The joined AMM actions of one block.
#[derive(Debug)]
pub struct AmmExtracted {
    pub slot: u64,
    pub joined_actions: Vec<JoinedAmmAction>,
}

/// The transaction's first signature, or empty text where it has none.
pub open spec fn tx_signature(tx: Transaction) -> Seq<char> {
    if tx.transaction.signatures@.len() > 0 {
        tx.transaction.signatures@[0]@
    } else {
        seq![]
    }
}

/// The transaction's log lines; none where the node reported none.
pub open spec fn tx_logs(tx: Transaction) -> Seq<String> {
    match tx.meta.log_messages {
        Some(v) => v@,
        None => seq![],
    }
}

/// The AMM events among `logs`, each with the signature, its line's index and
/// the line.
pub open spec fn amm_log_events(signature: Seq<char>, logs: Seq<String>) -> Seq<SpecAmmEventContext>
    decreases logs.len(),
{
    if logs.len() == 0 {
        seq![]
    } else {
        let prev = amm_log_events(signature, logs.drop_last());
        match spec_amm_log_event(logs.last()@) {
            Some(e) => prev.push(
                SpecAmmEventContext {
                    signature,
                    log_index: (logs.len() - 1) as usize,
                    raw_log: logs.last()@,
                    event: e,
                },
            ),
            None => prev,
        }
    }
}

/// The joined actions of transaction `tx`, the `tx_idx`-th of its block: none
/// where the program does not take part in it among its first 256 accounts,
/// where it failed, or where one of the program's instructions has data that
/// is not Base58.
pub open spec fn amm_tx_actions(tx: Transaction, idl: PumpIdl, address: Seq<char>, tx_idx: usize) -> Seq<
    SpecJoinedAmmAction,
> {
    match program_instruction_lists(tx, address) {
        None => seq![],
        Some((outer, inner)) => if tx.meta.err is Some {
            seq![]
        } else {
            match spec_collect_contexts(tx, idl, outer, inner, tx_idx) {
                Err(()) => seq![],
                Ok(cs) => spec_join_amm(cs, amm_log_events(tx_signature(tx), tx_logs(tx))),
            }
        },
    }
}

/// The joined actions of the transactions `txs`, in order.
pub open spec fn amm_block_actions(txs: Seq<Transaction>, idl: PumpIdl, address: Seq<char>) -> Seq<
    SpecJoinedAmmAction,
>
    decreases txs.len(),
{
    if txs.len() == 0 {
        seq![]
    } else {
        amm_block_actions(txs.drop_last(), idl, address) + amm_tx_actions(
            txs.last(),
            idl,
            address,
            (txs.len() - 1) as usize,
        )
    }
}

/// A failed transaction contributes no actions.
pub proof fn lemma_failed_transaction_yields_no_amm_actions(
    tx: Transaction,
    idl: PumpIdl,
    address: Seq<char>,
    tx_idx: usize,
)
    requires
        tx.meta.err is Some,
    ensures
        amm_tx_actions(tx, idl, address, tx_idx) == Seq::<SpecJoinedAmmAction>::empty(),
{
}

/// A block whose transactions all failed yields no actions.
pub proof fn lemma_failed_block_yields_no_amm_actions(
    txs: Seq<Transaction>,
    idl: PumpIdl,
    address: Seq<char>,
)
    requires
        forall|i: int| 0 <= i < txs.len() ==> (#[trigger] txs[i]).meta.err is Some,
    ensures
        amm_block_actions(txs, idl, address) == Seq::<SpecJoinedAmmAction>::empty(),
    decreases txs.len(),
{
    if txs.len() > 0 {
        let prefix = txs.drop_last();
        assert(forall|i: int| 0 <= i < prefix.len() ==> prefix[i] == txs[i]);
        lemma_failed_block_yields_no_amm_actions(prefix, idl, address);
        assert(txs.last() == txs[txs.len() - 1]);
        assert(amm_block_actions(txs, idl, address) =~= Seq::<SpecJoinedAmmAction>::empty());
    }
}

/// Every action extracted from a block pairs an event with an instruction
/// that, by the joining rule, emitted it.
pub proof fn lemma_block_amm_actions_match(txs: Seq<Transaction>, idl: PumpIdl, address: Seq<char>)
    ensures
        forall|k: int|
            0 <= k < amm_block_actions(txs, idl, address).len() ==> amm_ix_matches(
                (#[trigger] amm_block_actions(txs, idl, address)[k]).ix,
                amm_block_actions(txs, idl, address)[k].event.event,
            ),
    decreases txs.len(),
{
    if txs.len() > 0 {
        let prefix = txs.drop_last();
        lemma_block_amm_actions_match(prefix, idl, address);
        let tx = txs.last();
        let tx_idx = (txs.len() - 1) as usize;
        let prev = amm_block_actions(prefix, idl, address);
        let last = amm_tx_actions(tx, idl, address, tx_idx);
        assert forall|j: int| 0 <= j < last.len() implies amm_ix_matches(
            (#[trigger] last[j]).ix,
            last[j].event.event,
        ) by {
            if let Some((outer, inner)) = program_instruction_lists(tx, address) {
                if let Ok(cs) = spec_collect_contexts(tx, idl, outer, inner, tx_idx) {
                    let evs = amm_log_events(tx_signature(tx), tx_logs(tx));
                    lemma_amm_join_keeps_emitted_events(cs, evs);
                    assert(0 <= amm_joined_positions(cs, evs)[j]);
                }
            }
        }
        let all = amm_block_actions(txs, idl, address);
        assert forall|k: int| 0 <= k < all.len() implies amm_ix_matches(
            (#[trigger] all[k]).ix,
            all[k].event.event,
        ) by {
            if k < prev.len() {
                assert(all[k] == prev[k]);
            } else {
                assert(all[k] == last[k - prev.len()]);
            }
        }
    }
}

/// The transaction's first signature, or an empty string.
pub fn first_signature(tx: &Transaction) -> (s: String)
    ensures
        s@ == tx_signature(*tx),
{
    if tx.transaction.signatures.len() > 0 {
        tx.transaction.signatures[0].clone()
    } else {
        String::new()
    }
}

/// Decodes the AMM events of `logs`, each with its context.
pub fn amm_event_contexts(signature: &String, logs: &[String]) -> (events: Vec<AmmEventContext>)
    ensures
        amm_events_view(events@) == amm_log_events(signature@, logs@),
{
    let mut events: Vec<AmmEventContext> = Vec::new();
    let mut i: usize = 0;
    while i < logs.len()
        invariant
            0 <= i <= logs@.len(),
            amm_events_view(events@) == amm_log_events(signature@, logs@.take(i as int)),
        decreases logs@.len() - i,
    {
        let line = &logs[i];
        assert(logs@.take(i + 1).drop_last() == logs@.take(i as int));
        assert(logs@.take(i + 1).last() == *line);
        match decode_amm_event_from_log(line.as_str()) {
            Ok(Some(event)) => {
                let ghost before = events@;
                let ctx = AmmEventContext {
                    signature: signature.clone(),
                    log_index: i,
                    raw_log: line.clone(),
                    event,
                };
                events.push(ctx);
                assert(amm_events_view(events@) == amm_events_view(before).push(ctx@));
            },
            _ => {},
        }
        i = i + 1;
    }
    assert(logs@.take(logs@.len() as int) == logs@);
    events
}

/// The joined actions of one transaction (see [`amm_tx_actions`]).
pub fn amm_transaction_actions(
    tx: &Transaction,
    idl: &PumpIdl,
    amm_program_address: &str,
    tx_idx: usize,
) -> (actions: Vec<JoinedAmmAction>)
    ensures
        amm_actions_view(actions@) == amm_tx_actions(*tx, *idl, amm_program_address@, tx_idx),
{
    let (outer, inner) = match collect_instructions(tx, amm_program_address) {
        Some(lists) => lists,
        None => return Vec::new(),
    };
    if tx.meta.err.is_some() {
        return Vec::new();
    }
    let ix_contexts = match collect_contexts(tx, idl, outer.as_slice(), inner.as_slice(), tx_idx) {
        Ok(v) => v,
        Err(_) => return Vec::new(),
    };
    let signature = first_signature(tx);
    let ev_ctxs = match &tx.meta.log_messages {
        Some(logs) => amm_event_contexts(&signature, logs.as_slice()),
        None => {
            let empty: Vec<AmmEventContext> = Vec::new();
            assert(amm_events_view(empty@) =~= amm_log_events(signature@, seq![]));
            empty
        },
    };
    join_amm_ix_and_events(ix_contexts.as_slice(), ev_ctxs.as_slice())
}

/// Extracts the joined AMM actions of a block: for each transaction that
/// invokes the program `amm_program_address` and succeeded, its instructions
/// matched against the IDL joined with the AMM events of its logs.
/// Transactions that cannot be processed are skipped; this never fails.
pub fn extract_amm_block(
    notification: &BlockNotification,
    idl: &PumpIdl,
    amm_program_address: &str,
) -> (r: Result<AmmExtracted, ParseError>)
    ensures
        r matches Ok(out) && out.slot == notification.params.result.value.slot && amm_actions_view(
            out.joined_actions@,
        ) == amm_block_actions(
            notification.params.result.value.block.transactions@,
            *idl,
            amm_program_address@,
        ),
{
    let txs = &notification.params.result.value.block.transactions;
    let slot: u64 = notification.params.result.value.slot;
    let mut out_joined: Vec<JoinedAmmAction> = Vec::new();
    let mut tx_idx: usize = 0;
    while tx_idx < txs.len()
        invariant
            0 <= tx_idx <= txs@.len(),
            amm_actions_view(out_joined@) == amm_block_actions(
                txs@.take(tx_idx as int),
                *idl,
                amm_program_address@,
            ),
        decreases txs@.len() - tx_idx,
    {
        assert(txs@.take(tx_idx + 1).drop_last() == txs@.take(tx_idx as int));
        assert(txs@.take(tx_idx + 1).last() == txs@[tx_idx as int]);
        let mut joined = amm_transaction_actions(&txs[tx_idx], idl, amm_program_address, tx_idx);
        let ghost before = out_joined@;
        let ghost added = joined@;
        out_joined.append(&mut joined);
        assert(amm_actions_view(out_joined@) =~= amm_actions_view(before) + amm_actions_view(added));
        tx_idx = tx_idx + 1;
    }
    assert(txs@.take(txs@.len() as int) == txs@);
    Ok(AmmExtracted { slot, joined_actions: out_joined })
}


/// Each event that `amm_log_events` finds carries `signature`, the index of
/// its line among `logs` and that line, which holds the event.
pub proof fn lemma_amm_log_events_source(signature: Seq<char>, logs: Seq<String>)
    requires
        logs.len() <= usize::MAX,
    ensures
        forall|i: int|
            #![trigger amm_log_events(signature, logs)[i]]
            0 <= i < amm_log_events(signature, logs).len() ==> {
                let c = amm_log_events(signature, logs)[i];
                &&& c.signature == signature
                &&& c.log_index < logs.len()
                &&& c.raw_log == logs[c.log_index as int]@
                &&& spec_amm_log_event(c.raw_log) == Some(c.event)
            },
    decreases logs.len(),
{
    if logs.len() > 0 {
        let prefix = logs.drop_last();
        lemma_amm_log_events_source(signature, prefix);
        let r = amm_log_events(signature, logs);
        let pr = amm_log_events(signature, prefix);
        assert forall|i: int| #![trigger r[i]] 0 <= i < r.len() implies {
            let c = r[i];
            &&& c.signature == signature
            &&& c.log_index < logs.len()
            &&& c.raw_log == logs[c.log_index as int]@
            &&& spec_amm_log_event(c.raw_log) == Some(c.event)
        } by {
            if i < pr.len() {
                assert(r[i] == pr[i]);
                assert(prefix[pr[i].log_index as int] == logs[pr[i].log_index as int]);
            }
        }
    }
}

/// Every action of a transaction comes from one of its log lines: its event
/// carries the transaction's first signature (empty text where it has none),
/// the index of that line among the transaction's logs and the line itself,
/// which holds the event.
pub proof fn lemma_amm_tx_actions_source(tx: Transaction, idl: PumpIdl, address: Seq<char>, tx_idx: usize)
    requires
        tx_logs(tx).len() <= usize::MAX,
    ensures
        forall|k: int|
            #![trigger amm_tx_actions(tx, idl, address, tx_idx)[k]]
            0 <= k < amm_tx_actions(tx, idl, address, tx_idx).len() ==> {
                let ev = amm_tx_actions(tx, idl, address, tx_idx)[k].event;
                &&& tx.transaction.signatures@.len() > 0 ==> ev.signature
                    == tx.transaction.signatures@[0]@
                &&& tx.transaction.signatures@.len() == 0 ==> ev.signature == Seq::<char>::empty()
                &&& tx.meta.log_messages matches Some(logs)
                &&& ev.log_index < logs@.len()
                &&& ev.raw_log == logs@[ev.log_index as int]@
                &&& spec_amm_log_event(ev.raw_log) == Some(ev.event)
            },
{
    let r = amm_tx_actions(tx, idl, address, tx_idx);
    assert forall|k: int| #![trigger r[k]] 0 <= k < r.len() implies {
        let ev = r[k].event;
        &&& tx.transaction.signatures@.len() > 0 ==> ev.signature
            == tx.transaction.signatures@[0]@
        &&& tx.transaction.signatures@.len() == 0 ==> ev.signature == Seq::<char>::empty()
        &&& tx.meta.log_messages matches Some(logs)
        &&& ev.log_index < logs@.len()
        &&& ev.raw_log == logs@[ev.log_index as int]@
        &&& spec_amm_log_event(ev.raw_log) == Some(ev.event)
    } by {
        if let Some((outer, inner)) = program_instruction_lists(tx, address) {
            if let Ok(cs) = spec_collect_contexts(tx, idl, outer, inner, tx_idx) {
                let evs = amm_log_events(tx_signature(tx), tx_logs(tx));
                lemma_amm_join_keeps_emitted_events(cs, evs);
                lemma_amm_log_events_source(tx_signature(tx), tx_logs(tx));
                let p = amm_joined_positions(cs, evs)[k];
                assert(0 <= p < evs.len());
                assert(r[k].event == evs[p]);
            }
        }
    }
}

/// Every action extracted from a block comes from a log line of one of its
/// transactions, and carries that transaction's first signature (empty text
/// where it has none), the line's index and the line, which holds the event.
pub proof fn lemma_amm_block_actions_source(txs: Seq<Transaction>, idl: PumpIdl, address: Seq<char>)
    requires
        forall|t: int| 0 <= t < txs.len() ==> tx_logs(#[trigger] txs[t]).len() <= usize::MAX,
    ensures
        forall|k: int|
            #![trigger amm_block_actions(txs, idl, address)[k]]
            0 <= k < amm_block_actions(txs, idl, address).len() ==> exists|t: int|
                #![trigger txs[t]]
                0 <= t < txs.len() && {
                    let ev = amm_block_actions(txs, idl, address)[k].event;
                    &&& txs[t].transaction.signatures@.len() > 0 ==> ev.signature
                        == txs[t].transaction.signatures@[0]@
                    &&& txs[t].transaction.signatures@.len() == 0 ==> ev.signature == Seq::<char>::empty()
                    &&& txs[t].meta.log_messages matches Some(logs)
                    &&& ev.log_index < logs@.len()
                    &&& ev.raw_log == logs@[ev.log_index as int]@
                    &&& spec_amm_log_event(ev.raw_log) == Some(ev.event)
                },
    decreases txs.len(),
{
    if txs.len() > 0 {
        let prefix = txs.drop_last();
        assert(forall|t: int| 0 <= t < prefix.len() ==> prefix[t] == txs[t]);
        lemma_amm_block_actions_source(prefix, idl, address);
        let t_last = txs.len() - 1;
        let tx = txs.last();
        assert(tx == txs[t_last]);
        lemma_amm_tx_actions_source(tx, idl, address, t_last as usize);
        let prev = amm_block_actions(prefix, idl, address);
        let last = amm_tx_actions(tx, idl, address, t_last as usize);
        let all = amm_block_actions(txs, idl, address);
        assert forall|k: int| #![trigger all[k]] 0 <= k < all.len() implies exists|t: int|
            #![trigger txs[t]]
            0 <= t < txs.len() && {
                let ev = all[k].event;
                &&& txs[t].transaction.signatures@.len() > 0 ==> ev.signature
                    == txs[t].transaction.signatures@[0]@
                &&& txs[t].transaction.signatures@.len() == 0 ==> ev.signature == Seq::<char>::empty()
                &&& txs[t].meta.log_messages matches Some(logs)
                &&& ev.log_index < logs@.len()
                &&& ev.raw_log == logs@[ev.log_index as int]@
                &&& spec_amm_log_event(ev.raw_log) == Some(ev.event)
            } by {
            if k < prev.len() {
                assert(all[k] == prev[k]);
                let t = choose|t: int|
                    #![trigger prefix[t]]
                    0 <= t < prefix.len() && {
                        let ev = prev[k].event;
                        &&& prefix[t].transaction.signatures@.len() > 0 ==> ev.signature
                            == prefix[t].transaction.signatures@[0]@
                        &&& prefix[t].transaction.signatures@.len() == 0 ==> ev.signature == Seq::<char>::empty()
                        &&& prefix[t].meta.log_messages matches Some(logs)
                        &&& ev.log_index < logs@.len()
                        &&& ev.raw_log == logs@[ev.log_index as int]@
                        &&& spec_amm_log_event(ev.raw_log) == Some(ev.event)
                    };
                assert(prefix[t] == txs[t]);
            } else {
                assert(all[k] == last[k - prev.len()]);
                assert(txs[t_last] == tx);
            }
        }
    }
}

} // verus!
