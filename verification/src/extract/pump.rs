//! The bonding-curve pipeline for one block: find the program's instructions,
//! match them against the IDL, decode the events in the logs and join the two;
//! `migrate` instructions are handed out on their own.
use vstd::prelude::*;

use crate::decode::program_data::program_data_bytes;
use crate::decode::pump::{decode_pump_event_from_log, spec_pump_event};
use crate::error::ParseError;
use crate::extract::amm::{first_signature, tx_logs, tx_signature};
use crate::idl::collect::{collect_instructions, program_instruction_lists};
use crate::idl::match_ix::{
    collect_contexts, contexts_view, spec_collect_contexts, InstructionContext,
    SpecInstructionContext,
};
use crate::join::join_pump::{
    join_pump_ix_and_events, lemma_pump_join_keeps_emitted_events, pump_actions_view,
    pump_events_view, pump_ix_matches, pump_joined_positions, spec_join_pump, EventContext, JoinedPumpAction,
    SpecEventContext, SpecJoinedPumpAction,
};
use crate::text::str_eq;
use crate::types::block_notification::{BlockNotification, Transaction};
use crate::types::pump_events::SpecPumpEvent;
use crate::types::pump_idl::PumpIdl;

verus! {

/// The joined bonding-curve actions of one block, and its `migrate`
/// instructions, which the caller decides what to do with.
#[derive(Debug)]
pub struct PumpExtracted {
    pub slot: u64,
    pub joined_actions: Vec<JoinedPumpAction>,
    pub migrate_ix: Vec<InstructionContext>,
}

/// The bonding-curve event that a log line carries; lines whose event does not
/// decode count as carrying none.
pub open spec fn pump_log_event(line: Seq<char>) -> Option<SpecPumpEvent> {
    match program_data_bytes(line) {
        Some(bytes) => match spec_pump_event(bytes) {
            Ok(Some(e)) => Some(e),
            _ => None,
        },
        None => None,
    }
}

/// The bonding-curve events among `logs`, each with the signature, its line's
/// index and the line.
pub open spec fn pump_log_events(signature: Seq<char>, logs: Seq<String>) -> Seq<SpecEventContext>
    decreases logs.len(),
{
    if logs.len() == 0 {
        seq![]
    } else {
        let prev = pump_log_events(signature, logs.drop_last());
        match pump_log_event(logs.last()@) {
            Some(e) => prev.push(
                SpecEventContext {
                    signature,
                    log_index: (logs.len() - 1) as usize,
                    raw_log: logs.last()@,
                    event: e,
                },
            ),
            None => prev,
        }
    }
}

/// The contexts among `cs` of instructions named `migrate`, in order.
pub open spec fn migrate_contexts(cs: Seq<SpecInstructionContext>) -> Seq<SpecInstructionContext>
    decreases cs.len(),
{
    if cs.len() == 0 {
        seq![]
    } else {
        let prev = migrate_contexts(cs.drop_last());
        if cs.last().ix_name == "migrate"@ {
            prev.push(cs.last())
        } else {
            prev
        }
    }
}

/// The instruction contexts of transaction `tx`, the `tx_idx`-th of its block:
/// none where the program does not take part in it among its first 256
/// accounts, where it failed, or where one of the program's instructions has
/// data that is not Base58.
pub open spec fn pump_tx_contexts(tx: Transaction, idl: PumpIdl, address: Seq<char>, tx_idx: usize) -> Option<
    Seq<SpecInstructionContext>,
> {
    match program_instruction_lists(tx, address) {
        None => None,
        Some((outer, inner)) => if tx.meta.err is Some {
            None
        } else {
            match spec_collect_contexts(tx, idl, outer, inner, tx_idx) {
                Err(()) => None,
                Ok(cs) => Some(cs),
            }
        },
    }
}

/// The joined actions of one transaction.
pub open spec fn pump_tx_actions(tx: Transaction, idl: PumpIdl, address: Seq<char>, tx_idx: usize) -> Seq<
    SpecJoinedPumpAction,
> {
    match pump_tx_contexts(tx, idl, address, tx_idx) {
        None => seq![],
        Some(cs) => spec_join_pump(cs, pump_log_events(tx_signature(tx), tx_logs(tx))),
    }
}

/// The `migrate` instructions of one transaction.
pub open spec fn pump_tx_migrations(tx: Transaction, idl: PumpIdl, address: Seq<char>, tx_idx: usize) -> Seq<
    SpecInstructionContext,
> {
    match pump_tx_contexts(tx, idl, address, tx_idx) {
        None => seq![],
        Some(cs) => migrate_contexts(cs),
    }
}

/// The joined actions of the transactions `txs`, in order.
pub open spec fn pump_block_actions(txs: Seq<Transaction>, idl: PumpIdl, address: Seq<char>) -> Seq<
    SpecJoinedPumpAction,
>
    decreases txs.len(),
{
    if txs.len() == 0 {
        seq![]
    } else {
        pump_block_actions(txs.drop_last(), idl, address) + pump_tx_actions(
            txs.last(),
            idl,
            address,
            (txs.len() - 1) as usize,
        )
    }
}

/// The `migrate` instructions of the transactions `txs`, in order.
pub open spec fn pump_block_migrations(txs: Seq<Transaction>, idl: PumpIdl, address: Seq<char>) -> Seq<
    SpecInstructionContext,
>
    decreases txs.len(),
{
    if txs.len() == 0 {
        seq![]
    } else {
        pump_block_migrations(txs.drop_last(), idl, address) + pump_tx_migrations(
            txs.last(),
            idl,
            address,
            (txs.len() - 1) as usize,
        )
    }
}

/// The migrations kept from `cs` are the contexts named `migrate`, in order.
pub proof fn lemma_migrate_contexts_are_filter(cs: Seq<SpecInstructionContext>)
    ensures
        migrate_contexts(cs) == cs.filter(|c: SpecInstructionContext| c.ix_name == "migrate"@),
    decreases cs.len(),
{
    reveal(Seq::filter);
    if cs.len() > 0 {
        lemma_migrate_contexts_are_filter(cs.drop_last());
    }
}

/// A failed transaction contributes neither actions nor migrations.
pub proof fn lemma_failed_transaction_yields_nothing(
    tx: Transaction,
    idl: PumpIdl,
    address: Seq<char>,
    tx_idx: usize,
)
    requires
        tx.meta.err is Some,
    ensures
        pump_tx_actions(tx, idl, address, tx_idx) == Seq::<SpecJoinedPumpAction>::empty(),
        pump_tx_migrations(tx, idl, address, tx_idx) == Seq::<SpecInstructionContext>::empty(),
{
}

/// A block whose transactions all failed yields neither actions nor
/// migrations.
pub proof fn lemma_failed_block_yields_nothing(txs: Seq<Transaction>, idl: PumpIdl, address: Seq<char>)
    requires
        forall|i: int| 0 <= i < txs.len() ==> (#[trigger] txs[i]).meta.err is Some,
    ensures
        pump_block_actions(txs, idl, address) == Seq::<SpecJoinedPumpAction>::empty(),
        pump_block_migrations(txs, idl, address) == Seq::<SpecInstructionContext>::empty(),
    decreases txs.len(),
{
    if txs.len() > 0 {
        let prefix = txs.drop_last();
        assert(forall|i: int| 0 <= i < prefix.len() ==> prefix[i] == txs[i]);
        lemma_failed_block_yields_nothing(prefix, idl, address);
        assert(txs.last() == txs[txs.len() - 1]);
        assert(pump_block_actions(txs, idl, address) =~= Seq::<SpecJoinedPumpAction>::empty());
        assert(pump_block_migrations(txs, idl, address) =~= Seq::<SpecInstructionContext>::empty());
    }
}

/// Every migration extracted from a block is an instruction named `migrate`.
pub proof fn lemma_block_migrations_are_migrate(txs: Seq<Transaction>, idl: PumpIdl, address: Seq<char>)
    ensures
        forall|k: int|
            0 <= k < pump_block_migrations(txs, idl, address).len() ==> (
            #[trigger] pump_block_migrations(txs, idl, address)[k]).ix_name == "migrate"@,
    decreases txs.len(),
{
    if txs.len() > 0 {
        let prefix = txs.drop_last();
        lemma_block_migrations_are_migrate(prefix, idl, address);
        let tx_idx = (txs.len() - 1) as usize;
        let prev = pump_block_migrations(prefix, idl, address);
        let last = pump_tx_migrations(txs.last(), idl, address, tx_idx);
        if let Some(cs) = pump_tx_contexts(txs.last(), idl, address, tx_idx) {
            lemma_migrate_contexts_are_filter(cs);
            assert forall|k: int| 0 <= k < last.len() implies (#[trigger] last[k]).ix_name
                == "migrate"@ by {
                cs.lemma_filter_pred(|c: SpecInstructionContext| c.ix_name == "migrate"@, k);
            }
        }
        let all = pump_block_migrations(txs, idl, address);
        assert forall|k: int| 0 <= k < all.len() implies (#[trigger] all[k]).ix_name == "migrate"@ by {
            if k < prev.len() {
                assert(all[k] == prev[k]);
            } else {
                assert(all[k] == last[k - prev.len()]);
            }
        }
    }
}

/// Every action extracted from a block pairs an event with an instruction
/// that, by the joining rule, emitted it.
pub proof fn lemma_block_pump_actions_match(txs: Seq<Transaction>, idl: PumpIdl, address: Seq<char>)
    ensures
        forall|k: int|
            0 <= k < pump_block_actions(txs, idl, address).len() ==> pump_ix_matches(
                (#[trigger] pump_block_actions(txs, idl, address)[k]).ix,
                pump_block_actions(txs, idl, address)[k].event.event,
            ),
    decreases txs.len(),
{
    if txs.len() > 0 {
        let prefix = txs.drop_last();
        lemma_block_pump_actions_match(prefix, idl, address);
        let tx = txs.last();
        let tx_idx = (txs.len() - 1) as usize;
        let prev = pump_block_actions(prefix, idl, address);
        let last = pump_tx_actions(tx, idl, address, tx_idx);
        assert forall|j: int| 0 <= j < last.len() implies pump_ix_matches(
            (#[trigger] last[j]).ix,
            last[j].event.event,
        ) by {
            if let Some(cs) = pump_tx_contexts(tx, idl, address, tx_idx) {
                let evs = pump_log_events(tx_signature(tx), tx_logs(tx));
                lemma_pump_join_keeps_emitted_events(cs, evs);
                assert(0 <= pump_joined_positions(cs, evs)[j]);
            }
        }
        let all = pump_block_actions(txs, idl, address);
        assert forall|k: int| 0 <= k < all.len() implies pump_ix_matches(
            (#[trigger] all[k]).ix,
            all[k].event.event,
        ) by {
            if k < prev.len() {
                assert(all[k] == prev[k]);
            } else {
                assert(all[k] == last[k - prev.len()]);
            }
        }
    }
}

/// Decodes the bonding-curve events of `logs`, each with its context; lines
/// whose event does not decode are skipped.
pub fn pump_event_contexts(signature: &String, logs: &[String]) -> (events: Vec<EventContext>)
    ensures
        pump_events_view(events@) == pump_log_events(signature@, logs@),
{
    let mut events: Vec<EventContext> = Vec::new();
    let mut i: usize = 0;
    while i < logs.len()
        invariant
            0 <= i <= logs@.len(),
            pump_events_view(events@) == pump_log_events(signature@, logs@.take(i as int)),
        decreases logs@.len() - i,
    {
        let line = &logs[i];
        assert(logs@.take(i + 1).drop_last() == logs@.take(i as int));
        assert(logs@.take(i + 1).last() == *line);
        match decode_pump_event_from_log(line.as_str()) {
            Ok(Some(event)) => {
                let ghost before = events@;
                let ctx = EventContext {
                    signature: signature.clone(),
                    log_index: i,
                    raw_log: line.clone(),
                    event,
                };
                events.push(ctx);
                assert(pump_events_view(events@) == pump_events_view(before).push(ctx@));
            },
            _ => {},
        }
        i = i + 1;
    }
    assert(logs@.take(logs@.len() as int) == logs@);
    events
}

/// Copies the contexts named `migrate` onto the end of `out`.
fn push_migrations(out: &mut Vec<InstructionContext>, cs: &[InstructionContext])
    ensures
        contexts_view(final(out)@) == contexts_view(old(out)@) + migrate_contexts(contexts_view(cs@)),
{
    let ghost start = contexts_view(out@);
    let ghost all = contexts_view(cs@);
    let mut i: usize = 0;
    while i < cs.len()
        invariant
            0 <= i <= cs@.len(),
            all == contexts_view(cs@),
            contexts_view(out@) == start + migrate_contexts(all.take(i as int)),
        decreases cs@.len() - i,
    {
        assert(all.take(i + 1).drop_last() == all.take(i as int));
        assert(all.take(i + 1).last() == cs@[i as int]@);
        if str_eq(cs[i].ix_name.as_str(), "migrate") {
            let ghost before = out@;
            let c = cs[i].clone();
            out.push(c);
            assert(contexts_view(out@) == contexts_view(before).push(c@));
        }
        i = i + 1;
    }
    assert(all.take(cs@.len() as int) == all);
}

/// The joined actions of one transaction, and its `migrate` instructions
/// appended to `migrate_ix`.
pub fn pump_transaction_actions(
    tx: &Transaction,
    idl: &PumpIdl,
    pump_program_address: &str,
    tx_idx: usize,
    migrate_ix: &mut Vec<InstructionContext>,
) -> (actions: Vec<JoinedPumpAction>)
    ensures
        pump_actions_view(actions@) == pump_tx_actions(*tx, *idl, pump_program_address@, tx_idx),
        contexts_view(final(migrate_ix)@) == contexts_view(old(migrate_ix)@) + pump_tx_migrations(
            *tx,
            *idl,
            pump_program_address@,
            tx_idx,
        ),
{
    let ghost start = contexts_view(migrate_ix@);
    let (outer, inner) = match collect_instructions(tx, pump_program_address) {
        Some(lists) => lists,
        None => {
            assert(start + seq![] == start);
            return Vec::new();
        },
    };
    if tx.meta.err.is_some() {
        assert(start + seq![] == start);
        return Vec::new();
    }
    let ix_contexts = match collect_contexts(tx, idl, outer.as_slice(), inner.as_slice(), tx_idx) {
        Ok(v) => v,
        Err(_) => {
            assert(start + seq![] == start);
            return Vec::new();
        },
    };
    push_migrations(migrate_ix, ix_contexts.as_slice());
    let signature = first_signature(tx);
    let event_contexts = match &tx.meta.log_messages {
        Some(logs) => pump_event_contexts(&signature, logs.as_slice()),
        None => {
            let empty: Vec<EventContext> = Vec::new();
            assert(pump_events_view(empty@) =~= pump_log_events(signature@, seq![]));
            empty
        },
    };
    join_pump_ix_and_events(ix_contexts.as_slice(), event_contexts.as_slice())
}

/// Extracts the joined bonding-curve actions of a block: for each transaction
/// that invokes the program `pump_program_address` and succeeded, its
/// instructions matched against the IDL joined with the events of its logs;
/// also every matched `migrate` instruction. Transactions that cannot be
/// processed are skipped; this never fails.
pub fn extract_pump_block(
    notification: &BlockNotification,
    idl: &PumpIdl,
    pump_program_address: &str,
) -> (r: Result<PumpExtracted, ParseError>)
    ensures
        r matches Ok(out) && out.slot == notification.params.result.value.slot && pump_actions_view(
            out.joined_actions@,
        ) == pump_block_actions(
            notification.params.result.value.block.transactions@,
            *idl,
            pump_program_address@,
        ) && contexts_view(out.migrate_ix@) == pump_block_migrations(
            notification.params.result.value.block.transactions@,
            *idl,
            pump_program_address@,
        ),
{
    let txs = &notification.params.result.value.block.transactions;
    let slot: u64 = notification.params.result.value.slot;
    let mut out_joined: Vec<JoinedPumpAction> = Vec::new();
    let mut migrate_ix: Vec<InstructionContext> = Vec::new();
    let mut tx_idx: usize = 0;
    assert(contexts_view(migrate_ix@) =~= seq![]);
    while tx_idx < txs.len()
        invariant
            0 <= tx_idx <= txs@.len(),
            pump_actions_view(out_joined@) == pump_block_actions(
                txs@.take(tx_idx as int),
                *idl,
                pump_program_address@,
            ),
            contexts_view(migrate_ix@) == pump_block_migrations(
                txs@.take(tx_idx as int),
                *idl,
                pump_program_address@,
            ),
        decreases txs@.len() - tx_idx,
    {
        assert(txs@.take(tx_idx + 1).drop_last() == txs@.take(tx_idx as int));
        assert(txs@.take(tx_idx + 1).last() == txs@[tx_idx as int]);
        let mut joined = pump_transaction_actions(
            &txs[tx_idx],
            idl,
            pump_program_address,
            tx_idx,
            &mut migrate_ix,
        );
        let ghost before = out_joined@;
        let ghost added = joined@;
        out_joined.append(&mut joined);
        assert(pump_actions_view(out_joined@) =~= pump_actions_view(before) + pump_actions_view(
            added,
        ));
        tx_idx = tx_idx + 1;
    }
    assert(txs@.take(txs@.len() as int) == txs@);
    Ok(PumpExtracted { slot, joined_actions: out_joined, migrate_ix })
}


/// Each event that `pump_log_events` finds carries `signature`, the index of
/// its line among `logs` and that line, which holds the event.
pub proof fn lemma_pump_log_events_source(signature: Seq<char>, logs: Seq<String>)
    requires
        logs.len() <= usize::MAX,
    ensures
        forall|i: int|
            #![trigger pump_log_events(signature, logs)[i]]
            0 <= i < pump_log_events(signature, logs).len() ==> {
                let c = pump_log_events(signature, logs)[i];
                &&& c.signature == signature
                &&& c.log_index < logs.len()
                &&& c.raw_log == logs[c.log_index as int]@
                &&& pump_log_event(c.raw_log) == Some(c.event)
            },
    decreases logs.len(),
{
    if logs.len() > 0 {
        let prefix = logs.drop_last();
        lemma_pump_log_events_source(signature, prefix);
        let r = pump_log_events(signature, logs);
        let pr = pump_log_events(signature, prefix);
        assert forall|i: int| #![trigger r[i]] 0 <= i < r.len() implies {
            let c = r[i];
            &&& c.signature == signature
            &&& c.log_index < logs.len()
            &&& c.raw_log == logs[c.log_index as int]@
            &&& pump_log_event(c.raw_log) == Some(c.event)
        } by {
            if i < pr.len() {
                assert(r[i] == pr[i]);
                assert(prefix[pr[i].log_index as int] == logs[pr[i].log_index as int]);
            }
        }
    }
}

/// Every action of a transaction comes from one of its log lines: its event
/// carries the transaction's first signature (empty text where it has none),
/// the index of that line among the transaction's logs and the line itself,
/// which holds the event.
pub proof fn lemma_pump_tx_actions_source(tx: Transaction, idl: PumpIdl, address: Seq<char>, tx_idx: usize)
    requires
        tx_logs(tx).len() <= usize::MAX,
    ensures
        forall|k: int|
            #![trigger pump_tx_actions(tx, idl, address, tx_idx)[k]]
            0 <= k < pump_tx_actions(tx, idl, address, tx_idx).len() ==> {
                let ev = pump_tx_actions(tx, idl, address, tx_idx)[k].event;
                &&& tx.transaction.signatures@.len() > 0 ==> ev.signature
                    == tx.transaction.signatures@[0]@
                &&& tx.transaction.signatures@.len() == 0 ==> ev.signature == Seq::<char>::empty()
                &&& tx.meta.log_messages matches Some(logs)
                &&& ev.log_index < logs@.len()
                &&& ev.raw_log == logs@[ev.log_index as int]@
                &&& pump_log_event(ev.raw_log) == Some(ev.event)
            },
{
    let r = pump_tx_actions(tx, idl, address, tx_idx);
    assert forall|k: int| #![trigger r[k]] 0 <= k < r.len() implies {
        let ev = r[k].event;
        &&& tx.transaction.signatures@.len() > 0 ==> ev.signature
            == tx.transaction.signatures@[0]@
        &&& tx.transaction.signatures@.len() == 0 ==> ev.signature == Seq::<char>::empty()
        &&& tx.meta.log_messages matches Some(logs)
        &&& ev.log_index < logs@.len()
        &&& ev.raw_log == logs@[ev.log_index as int]@
        &&& pump_log_event(ev.raw_log) == Some(ev.event)
    } by {
        if let Some(cs) = pump_tx_contexts(tx, idl, address, tx_idx) {
            let evs = pump_log_events(tx_signature(tx), tx_logs(tx));
            lemma_pump_join_keeps_emitted_events(cs, evs);
            lemma_pump_log_events_source(tx_signature(tx), tx_logs(tx));
            let p = pump_joined_positions(cs, evs)[k];
            assert(0 <= p < evs.len());
            assert(r[k].event == evs[p]);
        }
    }
}

/// Every action extracted from a block comes from a log line of one of its
/// transactions, and carries that transaction's first signature (empty text
/// where it has none), the line's index and the line, which holds the event.
pub proof fn lemma_pump_block_actions_source(txs: Seq<Transaction>, idl: PumpIdl, address: Seq<char>)
    requires
        forall|t: int| 0 <= t < txs.len() ==> tx_logs(#[trigger] txs[t]).len() <= usize::MAX,
    ensures
        forall|k: int|
            #![trigger pump_block_actions(txs, idl, address)[k]]
            0 <= k < pump_block_actions(txs, idl, address).len() ==> exists|t: int|
                #![trigger txs[t]]
                0 <= t < txs.len() && {
                    let ev = pump_block_actions(txs, idl, address)[k].event;
                    &&& txs[t].transaction.signatures@.len() > 0 ==> ev.signature
                        == txs[t].transaction.signatures@[0]@
                    &&& txs[t].transaction.signatures@.len() == 0 ==> ev.signature == Seq::<char>::empty()
                    &&& txs[t].meta.log_messages matches Some(logs)
                    &&& ev.log_index < logs@.len()
                    &&& ev.raw_log == logs@[ev.log_index as int]@
                    &&& pump_log_event(ev.raw_log) == Some(ev.event)
                },
    decreases txs.len(),
{
    if txs.len() > 0 {
        let prefix = txs.drop_last();
        assert(forall|t: int| 0 <= t < prefix.len() ==> prefix[t] == txs[t]);
        lemma_pump_block_actions_source(prefix, idl, address);
        let t_last = txs.len() - 1;
        let tx = txs.last();
        assert(tx == txs[t_last]);
        lemma_pump_tx_actions_source(tx, idl, address, t_last as usize);
        let prev = pump_block_actions(prefix, idl, address);
        let last = pump_tx_actions(tx, idl, address, t_last as usize);
        let all = pump_block_actions(txs, idl, address);
        assert forall|k: int| #![trigger all[k]] 0 <= k < all.len() implies exists|t: int|
            #![trigger txs[t]]
            0 <= t < txs.len() && {
                let ev = all[k].event;
                &&& txs[t].transaction.signatures@.len() > 0 ==> ev.signature
                    == txs[t].transaction.signatures@[0]@
                &&& txs[t].transaction.signatures@.len() == 0 ==> ev.signature == Seq::<char>::empty()
                &&& txs[t].meta.log_messages matches Some(logs)
                &&& ev.log_index < logs@.len()
                &&& ev.raw_log == logs@[ev.log_index as int]@
                &&& pump_log_event(ev.raw_log) == Some(ev.event)
            } by {
            if k < prev.len() {
                assert(all[k] == prev[k]);
                let t = choose|t: int|
                    #![trigger prefix[t]]
                    0 <= t < prefix.len() && {
                        let ev = prev[k].event;
                        &&& prefix[t].transaction.signatures@.len() > 0 ==> ev.signature
                            == prefix[t].transaction.signatures@[0]@
                        &&& prefix[t].transaction.signatures@.len() == 0 ==> ev.signature == Seq::<char>::empty()
                        &&& prefix[t].meta.log_messages matches Some(logs)
                        &&& ev.log_index < logs@.len()
                        &&& ev.raw_log == logs@[ev.log_index as int]@
                        &&& pump_log_event(ev.raw_log) == Some(ev.event)
                    };
                assert(prefix[t] == txs[t]);
            } else {
                assert(all[k] == last[k - prev.len()]);
                assert(txs[t_last] == tx);
            }
        }
    }
}

} // verus!
