//! Pairing bonding-curve events with the instructions that caused them.
use vstd::prelude::*;

use crate::idl::match_ix::{contexts_view, InstructionContext, SpecInstructionContext};
use crate::text::{starts_with, str_eq};
use crate::types::pubkey_borsh::{base58_encoded, Pubkey};
use crate::types::pump_events::{PumpEvent, SpecPumpEvent};

verus! {

/// A bonding-curve event with where it was logged: the transaction's
/// signature, the index of the log line, and the line itself.
#[derive(Debug)]
pub struct EventContext {
    pub signature: String,
    pub log_index: usize,
    pub raw_log: String,
    pub event: PumpEvent,
}

/// The value of an [`EventContext`].
pub struct SpecEventContext {
    pub signature: Seq<char>,
    pub log_index: usize,
    pub raw_log: Seq<char>,
    pub event: SpecPumpEvent,
}

impl View for EventContext {
    type V = SpecEventContext;

    open spec fn view(&self) -> SpecEventContext {
        SpecEventContext {
            signature: self.signature@,
            log_index: self.log_index,
            raw_log: self.raw_log@,
            event: self.event@,
        }
    }
}

impl Clone for EventContext {
    fn clone(&self) -> (copy: Self)
        ensures
            copy == *self,
    {
        EventContext {
            signature: self.signature.clone(),
            log_index: self.log_index,
            raw_log: self.raw_log.clone(),
            event: self.event.clone(),
        }
    }
}

/// A bonding-curve instruction joined with the event it emitted.
#[derive(Debug)]
pub struct JoinedPumpAction {
    pub ix: InstructionContext,
    pub event: EventContext,
}

/// The value of a [`JoinedPumpAction`].
pub struct SpecJoinedPumpAction {
    pub ix: SpecInstructionContext,
    pub event: SpecEventContext,
}

impl View for JoinedPumpAction {
    type V = SpecJoinedPumpAction;

    open spec fn view(&self) -> SpecJoinedPumpAction {
        SpecJoinedPumpAction { ix: self.ix@, event: self.event@ }
    }
}

impl Clone for JoinedPumpAction {
    fn clone(&self) -> (copy: Self)
        ensures
            copy@ == self@,
    {
        JoinedPumpAction { ix: self.ix.clone(), event: self.event.clone() }
    }
}

/// Whether `ix` is the instruction that emitted `ev`. A trade needs the
/// event's instruction name and its mint and user as the `mint` and `user`
/// accounts; a creation an instruction whose name starts with `create` and
/// the mint, user and bonding curve as `mint`, `user` and `bonding_curve`; a
/// fee collection an instruction whose name starts with `collect` and the
/// creator as `creator`. Other events are never joined.
pub open spec fn pump_ix_matches(ix: SpecInstructionContext, ev: SpecPumpEvent) -> bool {
    match ev {
        SpecPumpEvent::Trade(e) => {
            &&& ix.ix_name == e.ix_name
            &&& ix.accounts.get("mint"@) == Some(base58_encoded(e.mint))
            &&& ix.accounts.get("user"@) == Some(base58_encoded(e.user))
        },
        SpecPumpEvent::Create(e) => {
            &&& "create"@.is_prefix_of(ix.ix_name)
            &&& ix.accounts.get("mint"@) == Some(base58_encoded(e.mint))
            &&& ix.accounts.get("user"@) == Some(base58_encoded(e.user))
            &&& ix.accounts.get("bonding_curve"@) == Some(base58_encoded(e.bonding_curve))
        },
        SpecPumpEvent::CollectCreatorFee(e) => {
            &&& "collect"@.is_prefix_of(ix.ix_name)
            &&& ix.accounts.get("creator"@) == Some(base58_encoded(e.creator))
        },
        _ => false,
    }
}

/// The index of the first instruction that emitted `ev`.
pub open spec fn first_pump_match(ixs: Seq<SpecInstructionContext>, ev: SpecPumpEvent) -> Option<int>
    decreases ixs.len(),
{
    if ixs.len() == 0 {
        None
    } else {
        match first_pump_match(ixs.drop_last(), ev) {
            Some(j) => Some(j),
            None => if pump_ix_matches(ixs.last(), ev) {
                Some(ixs.len() - 1)
            } else {
                None
            },
        }
    }
}

pub proof fn lemma_first_pump_match(ixs: Seq<SpecInstructionContext>, ev: SpecPumpEvent)
    ensures
        first_pump_match(ixs, ev) matches Some(j) ==> {
            &&& 0 <= j < ixs.len()
            &&& pump_ix_matches(ixs[j], ev)
            &&& forall|k: int| 0 <= k < j ==> !pump_ix_matches(ixs[k], ev)
        },
        first_pump_match(ixs, ev) is None <==> forall|k: int|
            0 <= k < ixs.len() ==> !pump_ix_matches(ixs[k], ev),
    decreases ixs.len(),
{
    if ixs.len() > 0 {
        let prefix = ixs.drop_last();
        lemma_first_pump_match(prefix, ev);
        assert(forall|k: int| 0 <= k < prefix.len() ==> prefix[k] == ixs[k]);
    }
}

proof fn lemma_first_pump_match_prefix(ixs: Seq<SpecInstructionContext>, ev: SpecPumpEvent, n: int)
    requires
        0 <= n <= ixs.len(),
        first_pump_match(ixs.take(n), ev) is Some,
    ensures
        first_pump_match(ixs, ev) == first_pump_match(ixs.take(n), ev),
    decreases ixs.len() - n,
{
    if n < ixs.len() {
        assert(ixs.take(n + 1).drop_last() == ixs.take(n));
        lemma_first_pump_match_prefix(ixs, ev, n + 1);
    } else {
        assert(ixs.take(n) == ixs);
    }
}

/// The actions that joining gives: for each event in order, the event with
/// the first instruction that emitted it; events that no instruction emitted
/// are left out.
pub open spec fn spec_join_pump(ixs: Seq<SpecInstructionContext>, evs: Seq<SpecEventContext>) -> Seq<
    SpecJoinedPumpAction,
>
    decreases evs.len(),
{
    if evs.len() == 0 {
        seq![]
    } else {
        let prev = spec_join_pump(ixs, evs.drop_last());
        match first_pump_match(ixs, evs.last().event) {
            Some(j) => prev.push(SpecJoinedPumpAction { ix: ixs[j], event: evs.last() }),
            None => prev,
        }
    }
}

/// The positions, among `evs`, of the events that joining keeps.
pub open spec fn pump_joined_positions(ixs: Seq<SpecInstructionContext>, evs: Seq<SpecEventContext>) -> Seq<int>
    decreases evs.len(),
{
    if evs.len() == 0 {
        seq![]
    } else {
        let prev = pump_joined_positions(ixs, evs.drop_last());
        if first_pump_match(ixs, evs.last().event) is Some {
            prev.push(evs.len() - 1)
        } else {
            prev
        }
    }
}

/// Joining keeps exactly the events that some instruction emitted, once each
/// and in log order, and pairs each with the first instruction that emitted
/// it.
pub proof fn lemma_pump_join_keeps_emitted_events(ixs: Seq<SpecInstructionContext>, evs: Seq<SpecEventContext>)
    ensures
        ({
            let r = spec_join_pump(ixs, evs);
            let pos = pump_joined_positions(ixs, evs);
            &&& r.len() == pos.len()
            &&& forall|a: int, b: int| 0 <= a < b < pos.len() ==> pos[a] < pos[b]
            &&& forall|k: int|
                0 <= k < r.len() ==> {
                    &&& 0 <= #[trigger] pos[k] < evs.len()
                    &&& r[k].event == evs[pos[k]]
                    &&& first_pump_match(ixs, evs[pos[k]].event) is Some
                    &&& r[k].ix == ixs[first_pump_match(ixs, evs[pos[k]].event)->0]
                    &&& pump_ix_matches(r[k].ix, r[k].event.event)
                }
            &&& forall|i: int|
                0 <= i < evs.len() ==> (pos.contains(i) <==> first_pump_match(
                    ixs,
                    #[trigger] evs[i].event,
                ) is Some)
        }),
    decreases evs.len(),
{
    if evs.len() > 0 {
        let prefix = evs.drop_last();
        lemma_pump_join_keeps_emitted_events(ixs, prefix);
        lemma_first_pump_match(ixs, evs.last().event);
        let r = spec_join_pump(ixs, evs);
        let pos = pump_joined_positions(ixs, evs);
        let pr = spec_join_pump(ixs, prefix);
        let pp = pump_joined_positions(ixs, prefix);
        assert(forall|i: int| 0 <= i < prefix.len() ==> prefix[i] == evs[i]);
        assert forall|k: int| 0 <= k < r.len() implies {
            &&& 0 <= #[trigger] pos[k] < evs.len()
            &&& r[k].event == evs[pos[k]]
            &&& first_pump_match(ixs, evs[pos[k]].event) is Some
            &&& r[k].ix == ixs[first_pump_match(ixs, evs[pos[k]].event)->0]
            &&& pump_ix_matches(r[k].ix, r[k].event.event)
        } by {
            if k < pr.len() {
                assert(r[k] == pr[k]);
                assert(pos[k] == pp[k]);
                lemma_first_pump_match(ixs, evs[pos[k]].event);
            }
        }
        assert forall|i: int| 0 <= i < evs.len() implies (pos.contains(i) <==> first_pump_match(
            ixs,
            #[trigger] evs[i].event,
        ) is Some) by {
            if i < prefix.len() {
                assert(prefix[i] == evs[i]);
                if pp.contains(i) {
                    let k = choose|k: int| 0 <= k < pp.len() && pp[k] == i;
                    assert(pos[k] == i);
                }
                if pos.contains(i) {
                    let k = choose|k: int| 0 <= k < pos.len() && pos[k] == i;
                    if k < pp.len() {
                        assert(pp[k] == i);
                    }
                }
            } else {
                if first_pump_match(ixs, evs[i].event) is Some {
                    assert(pos[pos.len() - 1] == i);
                }
                if pos.contains(i) {
                    let k = choose|k: int| 0 <= k < pos.len() && pos[k] == i;
                    if k < pp.len() {
                        assert(pp[k] < prefix.len());
                    }
                }
            }
        }
    }
}

/// The views of a sequence of event contexts.
pub open spec fn pump_events_view(s: Seq<EventContext>) -> Seq<SpecEventContext> {
    s.map_values(|e: EventContext| e@)
}

/// The views of a sequence of joined actions.
pub open spec fn pump_actions_view(s: Seq<JoinedPumpAction>) -> Seq<SpecJoinedPumpAction> {
    s.map_values(|a: JoinedPumpAction| a@)
}

fn pk_to_string(pk: &Pubkey) -> (text: String)
    ensures
        text@ == base58_encoded(pk@),
{
    pk.to_string()
}

/// Whether account `name` of `ix` is `address`.
fn account_is(ix: &InstructionContext, name: &str, address: &String) -> (r: bool)
    ensures
        r == (ix.accounts@.get(name@) == Some(address@)),
{
    match ix.accounts.get(name) {
        Some(a) => str_eq(a.as_str(), address.as_str()),
        None => false,
    }
}

/// The index of the first instruction context that emitted `ev`.
fn find_pump_match(ix_contexts: &[InstructionContext], ev: &PumpEvent) -> (found: Option<usize>)
    ensures
        match first_pump_match(contexts_view(ix_contexts@), ev@) {
            Some(j) => found == Some(j as usize),
            None => found is None,
        },
{
    let ghost ixs = contexts_view(ix_contexts@);
    let (first, second, third) = match ev {
        PumpEvent::Trade(e) => (pk_to_string(&e.mint), pk_to_string(&e.user), String::new()),
        PumpEvent::Create(e) => (
            pk_to_string(&e.mint),
            pk_to_string(&e.user),
            pk_to_string(&e.bonding_curve),
        ),
        PumpEvent::CollectCreatorFee(e) => (pk_to_string(&e.creator), String::new(), String::new()),
        _ => {
            proof {
                lemma_first_pump_match(ixs, ev@);
            }
            return None;
        },
    };
    let mut i: usize = 0;
    while i < ix_contexts.len()
        invariant
            0 <= i <= ix_contexts@.len(),
            ixs == contexts_view(ix_contexts@),
            match ev@ {
                SpecPumpEvent::Trade(e) => first@ == base58_encoded(e.mint) && second@
                    == base58_encoded(e.user),
                SpecPumpEvent::Create(e) => first@ == base58_encoded(e.mint) && second@
                    == base58_encoded(e.user) && third@ == base58_encoded(e.bonding_curve),
                SpecPumpEvent::CollectCreatorFee(e) => first@ == base58_encoded(e.creator),
                _ => false,
            },
            first_pump_match(ixs.take(i as int), ev@) is None,
        decreases ix_contexts@.len() - i,
    {
        let ix = &ix_contexts[i];
        let hit = match ev {
            PumpEvent::Trade(e) => str_eq(ix.ix_name.as_str(), e.ix_name.as_str()) && account_is(
                ix,
                "mint",
                &first,
            ) && account_is(ix, "user", &second),
            PumpEvent::Create(_) => starts_with(ix.ix_name.as_str(), "create") && account_is(
                ix,
                "mint",
                &first,
            ) && account_is(ix, "user", &second) && account_is(ix, "bonding_curve", &third),
            PumpEvent::CollectCreatorFee(_) => starts_with(ix.ix_name.as_str(), "collect")
                && account_is(ix, "creator", &first),
            _ => false,
        };
        assert(ixs.take(i + 1).drop_last() == ixs.take(i as int));
        assert(ixs.take(i + 1).last() == ix@);
        if hit {
            assert(first_pump_match(ixs.take(i + 1), ev@) == Some(i as int));
            proof {
                lemma_first_pump_match_prefix(ixs, ev@, i + 1);
            }
            return Some(i);
        }
        i = i + 1;
    }
    assert(ixs.take(ix_contexts@.len() as int) == ixs);
    None
}

/// Joins each bonding-curve event with the first instruction context that
/// emitted it (see [`pump_ix_matches`]); other events are dropped.
pub fn join_pump_ix_and_events(ix_contexts: &[InstructionContext], events: &[EventContext]) -> (joined: Vec<
    JoinedPumpAction,
>)
    ensures
        pump_actions_view(joined@) == spec_join_pump(
            contexts_view(ix_contexts@),
            pump_events_view(events@),
        ),
{
    let ghost ixs = contexts_view(ix_contexts@);
    let ghost evs = pump_events_view(events@);
    let mut joined: Vec<JoinedPumpAction> = Vec::new();
    let mut k: usize = 0;
    while k < events.len()
        invariant
            0 <= k <= events@.len(),
            ixs == contexts_view(ix_contexts@),
            evs == pump_events_view(events@),
            pump_actions_view(joined@) == spec_join_pump(ixs, evs.take(k as int)),
        decreases events@.len() - k,
    {
        let ev_ctx = &events[k];
        assert(evs.take(k + 1).drop_last() == evs.take(k as int));
        assert(evs.take(k + 1).last() == ev_ctx@);
        proof {
            lemma_first_pump_match(ixs, ev_ctx.event@);
        }
        match find_pump_match(ix_contexts, &ev_ctx.event) {
            Some(j) => {
                let ghost before = joined@;
                let action = JoinedPumpAction { ix: ix_contexts[j].clone(), event: ev_ctx.clone() };
                joined.push(action);
                assert(pump_actions_view(joined@) == pump_actions_view(before).push(action@));
            },
            None => {},
        }
        k = k + 1;
    }
    assert(evs.take(events@.len() as int) == evs);
    joined
}


/// The joining rule, stated on the instructions' names and accounts: every
/// joined action pairs a trade with the first instruction named as the trade
/// says that has its mint and user as `mint` and `user` accounts; a creation
/// with the first instruction whose name starts with `create` that has its
/// mint, user and bonding curve as `mint`, `user` and `bonding_curve`; a fee
/// collection with the first instruction whose name starts with `collect` that
/// has its creator as `creator`. No other event is joined, and every event
/// for which such an instruction exists is joined.
pub proof fn lemma_pump_join_rule(ixs: Seq<SpecInstructionContext>, evs: Seq<SpecEventContext>)
    ensures
        forall|k: int|
            #![trigger spec_join_pump(ixs, evs)[k]]
            0 <= k < spec_join_pump(ixs, evs).len() ==> match spec_join_pump(ixs, evs)[k].event.event {
                SpecPumpEvent::Trade(e) => exists|m: int|
                    0 <= m < ixs.len() && spec_join_pump(ixs, evs)[k].ix == ixs[m]
                        && ixs[m].ix_name == e.ix_name
                        && ixs[m].accounts.get("mint"@) == Some(base58_encoded(e.mint))
                        && ixs[m].accounts.get("user"@) == Some(base58_encoded(e.user))
                        && forall|l: int|
                        0 <= l < m ==> !(ixs[l].ix_name == e.ix_name
                        && ixs[l].accounts.get("mint"@) == Some(base58_encoded(e.mint))
                        && ixs[l].accounts.get("user"@) == Some(base58_encoded(e.user))),
                SpecPumpEvent::Create(e) => exists|m: int|
                    0 <= m < ixs.len() && spec_join_pump(ixs, evs)[k].ix == ixs[m]
                        && "create"@.is_prefix_of(ixs[m].ix_name)
                        && ixs[m].accounts.get("mint"@) == Some(base58_encoded(e.mint))
                        && ixs[m].accounts.get("user"@) == Some(base58_encoded(e.user))
                        && ixs[m].accounts.get("bonding_curve"@) == Some(base58_encoded(e.bonding_curve))
                        && forall|l: int|
                        0 <= l < m ==> !("create"@.is_prefix_of(ixs[l].ix_name)
                        && ixs[l].accounts.get("mint"@) == Some(base58_encoded(e.mint))
                        && ixs[l].accounts.get("user"@) == Some(base58_encoded(e.user))
                        && ixs[l].accounts.get("bonding_curve"@) == Some(base58_encoded(e.bonding_curve))),
                SpecPumpEvent::CollectCreatorFee(e) => exists|m: int|
                    0 <= m < ixs.len() && spec_join_pump(ixs, evs)[k].ix == ixs[m]
                        && "collect"@.is_prefix_of(ixs[m].ix_name)
                        && ixs[m].accounts.get("creator"@) == Some(base58_encoded(e.creator))
                        && forall|l: int|
                        0 <= l < m ==> !("collect"@.is_prefix_of(ixs[l].ix_name)
                        && ixs[l].accounts.get("creator"@) == Some(base58_encoded(e.creator))),
                _ => false,
            },
        forall|i: int, j: int|
            #![trigger evs[i], ixs[j]]
            0 <= i < evs.len() && 0 <= j < ixs.len() && match evs[i].event {
                SpecPumpEvent::Trade(e) => ixs[j].ix_name == e.ix_name
                    && ixs[j].accounts.get("mint"@) == Some(base58_encoded(e.mint))
                    && ixs[j].accounts.get("user"@) == Some(base58_encoded(e.user)),
                SpecPumpEvent::Create(e) => "create"@.is_prefix_of(ixs[j].ix_name)
                    && ixs[j].accounts.get("mint"@) == Some(base58_encoded(e.mint))
                    && ixs[j].accounts.get("user"@) == Some(base58_encoded(e.user))
                    && ixs[j].accounts.get("bonding_curve"@) == Some(base58_encoded(e.bonding_curve)),
                SpecPumpEvent::CollectCreatorFee(e) => "collect"@.is_prefix_of(ixs[j].ix_name)
                    && ixs[j].accounts.get("creator"@) == Some(base58_encoded(e.creator)),
                _ => false,
            } ==> exists|k: int|
                #![trigger spec_join_pump(ixs, evs)[k]]
                0 <= k < spec_join_pump(ixs, evs).len() && spec_join_pump(ixs, evs)[k].event == evs[i],
{
    lemma_pump_join_keeps_emitted_events(ixs, evs);
    let r = spec_join_pump(ixs, evs);
    let pos = pump_joined_positions(ixs, evs);
    assert forall|k: int| #![trigger r[k]] 0 <= k < r.len() implies match r[k].event.event {
        SpecPumpEvent::Trade(e) => exists|m: int|
            0 <= m < ixs.len() && r[k].ix == ixs[m]
                && ixs[m].ix_name == e.ix_name
                && ixs[m].accounts.get("mint"@) == Some(base58_encoded(e.mint))
                && ixs[m].accounts.get("user"@) == Some(base58_encoded(e.user))
                && forall|l: int| 0 <= l < m ==> !(ixs[l].ix_name == e.ix_name
                && ixs[l].accounts.get("mint"@) == Some(base58_encoded(e.mint))
                && ixs[l].accounts.get("user"@) == Some(base58_encoded(e.user))),
        SpecPumpEvent::Create(e) => exists|m: int|
            0 <= m < ixs.len() && r[k].ix == ixs[m]
                && "create"@.is_prefix_of(ixs[m].ix_name)
                && ixs[m].accounts.get("mint"@) == Some(base58_encoded(e.mint))
                && ixs[m].accounts.get("user"@) == Some(base58_encoded(e.user))
                && ixs[m].accounts.get("bonding_curve"@) == Some(base58_encoded(e.bonding_curve))
                && forall|l: int| 0 <= l < m ==> !("create"@.is_prefix_of(ixs[l].ix_name)
                && ixs[l].accounts.get("mint"@) == Some(base58_encoded(e.mint))
                && ixs[l].accounts.get("user"@) == Some(base58_encoded(e.user))
                && ixs[l].accounts.get("bonding_curve"@) == Some(base58_encoded(e.bonding_curve))),
        SpecPumpEvent::CollectCreatorFee(e) => exists|m: int|
            0 <= m < ixs.len() && r[k].ix == ixs[m]
                && "collect"@.is_prefix_of(ixs[m].ix_name)
                && ixs[m].accounts.get("creator"@) == Some(base58_encoded(e.creator))
                && forall|l: int| 0 <= l < m ==> !("collect"@.is_prefix_of(ixs[l].ix_name)
                && ixs[l].accounts.get("creator"@) == Some(base58_encoded(e.creator))),
        _ => false,
    } by {
        let p = pos[k];
        assert(0 <= p < evs.len() && r[k].event == evs[p]);
        let ev = r[k].event.event;
        lemma_first_pump_match(ixs, ev);
        let m = first_pump_match(ixs, ev)->0;
        assert(r[k].ix == ixs[m]);
        assert(forall|l: int| 0 <= l < m ==> !pump_ix_matches(#[trigger] ixs[l], ev));
    }
    assert forall|i: int, j: int|
        #![trigger evs[i], ixs[j]]
        0 <= i < evs.len() && 0 <= j < ixs.len() && match evs[i].event {
            SpecPumpEvent::Trade(e) => ixs[j].ix_name == e.ix_name
                && ixs[j].accounts.get("mint"@) == Some(base58_encoded(e.mint))
                && ixs[j].accounts.get("user"@) == Some(base58_encoded(e.user)),
            SpecPumpEvent::Create(e) => "create"@.is_prefix_of(ixs[j].ix_name)
                && ixs[j].accounts.get("mint"@) == Some(base58_encoded(e.mint))
                && ixs[j].accounts.get("user"@) == Some(base58_encoded(e.user))
                && ixs[j].accounts.get("bonding_curve"@) == Some(base58_encoded(e.bonding_curve)),
            SpecPumpEvent::CollectCreatorFee(e) => "collect"@.is_prefix_of(ixs[j].ix_name)
                && ixs[j].accounts.get("creator"@) == Some(base58_encoded(e.creator)),
            _ => false,
        } implies exists|k: int|
            #![trigger r[k]]
            0 <= k < r.len() && r[k].event == evs[i] by {
        lemma_first_pump_match(ixs, evs[i].event);
        assert(pump_ix_matches(ixs[j], evs[i].event));
        assert(pos.contains(i));
        let k = choose|k: int| 0 <= k < pos.len() && pos[k] == i;
        assert(r[k].event == evs[i]);
    }
}

} // verus!
