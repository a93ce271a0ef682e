//! Pairing AMM events with the AMM instructions that caused them.
use vstd::prelude::*;

use crate::idl::match_ix::{contexts_view, InstructionContext, SpecInstructionContext};
use crate::text::str_eq;
use crate::types::amm_events::{AmmEvent, SpecAmmEvent};
use crate::types::pubkey_borsh::{base58_encoded, Pubkey};

verus! {

/// An AMM event with where it was logged: the transaction's signature, the
/// index of the log line, and the line itself.
#[derive(Debug)]
pub struct AmmEventContext {
    pub signature: String,
    pub log_index: usize,
    pub raw_log: String,
    pub event: AmmEvent,
}

/// The value of an [`AmmEventContext`].
pub struct SpecAmmEventContext {
    pub signature: Seq<char>,
    pub log_index: usize,
    pub raw_log: Seq<char>,
    pub event: SpecAmmEvent,
}

impl View for AmmEventContext {
    type V = SpecAmmEventContext;

    open spec fn view(&self) -> SpecAmmEventContext {
        SpecAmmEventContext {
            signature: self.signature@,
            log_index: self.log_index,
            raw_log: self.raw_log@,
            event: self.event@,
        }
    }
}

impl Clone for AmmEventContext {
    fn clone(&self) -> (copy: Self)
        ensures
            copy == *self,
    {
        AmmEventContext {
            signature: self.signature.clone(),
            log_index: self.log_index,
            raw_log: self.raw_log.clone(),
            event: self.event.clone(),
        }
    }
}

/// An AMM instruction joined with the event it emitted.
#[derive(Debug)]
pub struct JoinedAmmAction {
    pub ix: InstructionContext,
    pub event: AmmEventContext,
}

/// The value of a [`JoinedAmmAction`].
pub struct SpecJoinedAmmAction {
    pub ix: SpecInstructionContext,
    pub event: SpecAmmEventContext,
}

impl View for JoinedAmmAction {
    type V = SpecJoinedAmmAction;

    open spec fn view(&self) -> SpecJoinedAmmAction {
        SpecJoinedAmmAction { ix: self.ix@, event: self.event@ }
    }
}

impl Clone for JoinedAmmAction {
    fn clone(&self) -> (copy: Self)
        ensures
            copy@ == self@,
    {
        JoinedAmmAction { ix: self.ix.clone(), event: self.event.clone() }
    }
}

/// Whether `ix` is the instruction that emitted `ev`: a sell needs an
/// instruction named `sell`, a buy one with the event's instruction name, and
/// both the event's pool and user as the instruction's `pool` and `user`
/// accounts.
pub open spec fn amm_ix_matches(ix: SpecInstructionContext, ev: SpecAmmEvent) -> bool {
    match ev {
        SpecAmmEvent::Sell(e) => {
            &&& ix.ix_name == "sell"@
            &&& ix.accounts.get("pool"@) == Some(base58_encoded(e.pool))
            &&& ix.accounts.get("user"@) == Some(base58_encoded(e.user))
        },
        SpecAmmEvent::Buy(e) => {
            &&& ix.accounts.get("pool"@) == Some(base58_encoded(e.pool))
            &&& ix.accounts.get("user"@) == Some(base58_encoded(e.user))
            &&& ix.ix_name == e.ix_name
        },
    }
}

/// The index of the first instruction that emitted `ev`.
pub open spec fn first_amm_match(ixs: Seq<SpecInstructionContext>, ev: SpecAmmEvent) -> Option<int>
    decreases ixs.len(),
{
    if ixs.len() == 0 {
        None
    } else {
        match first_amm_match(ixs.drop_last(), ev) {
            Some(j) => Some(j),
            None => if amm_ix_matches(ixs.last(), ev) {
                Some(ixs.len() - 1)
            } else {
                None
            },
        }
    }
}

pub proof fn lemma_first_amm_match(ixs: Seq<SpecInstructionContext>, ev: SpecAmmEvent)
    ensures
        first_amm_match(ixs, ev) matches Some(j) ==> {
            &&& 0 <= j < ixs.len()
            &&& amm_ix_matches(ixs[j], ev)
            &&& forall|k: int| 0 <= k < j ==> !amm_ix_matches(ixs[k], ev)
        },
        first_amm_match(ixs, ev) is None ==> forall|k: int|
            0 <= k < ixs.len() ==> !amm_ix_matches(ixs[k], ev),
    decreases ixs.len(),
{
    if ixs.len() > 0 {
        let prefix = ixs.drop_last();
        lemma_first_amm_match(prefix, ev);
        assert(forall|k: int| 0 <= k < prefix.len() ==> prefix[k] == ixs[k]);
    }
}

proof fn lemma_first_amm_match_prefix(ixs: Seq<SpecInstructionContext>, ev: SpecAmmEvent, n: int)
    requires
        0 <= n <= ixs.len(),
        first_amm_match(ixs.take(n), ev) is Some,
    ensures
        first_amm_match(ixs, ev) == first_amm_match(ixs.take(n), ev),
    decreases ixs.len() - n,
{
    if n < ixs.len() {
        assert(ixs.take(n + 1).drop_last() == ixs.take(n));
        lemma_first_amm_match_prefix(ixs, ev, n + 1);
    } else {
        assert(ixs.take(n) == ixs);
    }
}

/// The actions that joining gives: for each event in order, the event with
/// the first instruction that emitted it; events that no instruction emitted
/// are left out.
pub open spec fn spec_join_amm(ixs: Seq<SpecInstructionContext>, evs: Seq<SpecAmmEventContext>) -> Seq<
    SpecJoinedAmmAction,
>
    decreases evs.len(),
{
    if evs.len() == 0 {
        seq![]
    } else {
        let prev = spec_join_amm(ixs, evs.drop_last());
        match first_amm_match(ixs, evs.last().event) {
            Some(j) => prev.push(SpecJoinedAmmAction { ix: ixs[j], event: evs.last() }),
            None => prev,
        }
    }
}

/// The positions, among `evs`, of the events that joining keeps.
pub open spec fn amm_joined_positions(ixs: Seq<SpecInstructionContext>, evs: Seq<SpecAmmEventContext>) -> Seq<int>
    decreases evs.len(),
{
    if evs.len() == 0 {
        seq![]
    } else {
        let prev = amm_joined_positions(ixs, evs.drop_last());
        if first_amm_match(ixs, evs.last().event) is Some {
            prev.push(evs.len() - 1)
        } else {
            prev
        }
    }
}

/// Joining keeps exactly the events that some instruction emitted, once each
/// and in log order, and pairs each with the first instruction that emitted
/// it.
pub proof fn lemma_amm_join_keeps_emitted_events(ixs: Seq<SpecInstructionContext>, evs: Seq<SpecAmmEventContext>)
    ensures
        ({
            let r = spec_join_amm(ixs, evs);
            let pos = amm_joined_positions(ixs, evs);
            &&& r.len() == pos.len()
            &&& forall|a: int, b: int| 0 <= a < b < pos.len() ==> pos[a] < pos[b]
            &&& forall|k: int|
                0 <= k < r.len() ==> {
                    &&& 0 <= #[trigger] pos[k] < evs.len()
                    &&& r[k].event == evs[pos[k]]
                    &&& first_amm_match(ixs, evs[pos[k]].event) is Some
                    &&& r[k].ix == ixs[first_amm_match(ixs, evs[pos[k]].event)->0]
                    &&& amm_ix_matches(r[k].ix, r[k].event.event)
                }
            &&& forall|i: int|
                0 <= i < evs.len() ==> (pos.contains(i) <==> first_amm_match(
                    ixs,
                    #[trigger] evs[i].event,
                ) is Some)
        }),
    decreases evs.len(),
{
    if evs.len() > 0 {
        let prefix = evs.drop_last();
        lemma_amm_join_keeps_emitted_events(ixs, prefix);
        lemma_first_amm_match(ixs, evs.last().event);
        let r = spec_join_amm(ixs, evs);
        let pos = amm_joined_positions(ixs, evs);
        let pr = spec_join_amm(ixs, prefix);
        let pp = amm_joined_positions(ixs, prefix);
        assert(forall|i: int| 0 <= i < prefix.len() ==> prefix[i] == evs[i]);
        assert forall|k: int| 0 <= k < r.len() implies {
            &&& 0 <= #[trigger] pos[k] < evs.len()
            &&& r[k].event == evs[pos[k]]
            &&& first_amm_match(ixs, evs[pos[k]].event) is Some
            &&& r[k].ix == ixs[first_amm_match(ixs, evs[pos[k]].event)->0]
            &&& amm_ix_matches(r[k].ix, r[k].event.event)
        } by {
            if k < pr.len() {
                assert(r[k] == pr[k]);
                assert(pos[k] == pp[k]);
                lemma_first_amm_match(ixs, evs[pos[k]].event);
            }
        }
        assert forall|i: int| 0 <= i < evs.len() implies (pos.contains(i) <==> first_amm_match(
            ixs,
            #[trigger] evs[i].event,
        ) is Some) by {
            if i < prefix.len() {
                assert(prefix[i] == evs[i]);
                if pp.contains(i) {
                    let k = choose|k: int| 0 <= k < pp.len() && pp[k] == i;
                    assert(pos[k] == i);
                }
                if pos.contains(i) {
                    let k = choose|k: int| 0 <= k < pos.len() && pos[k] == i;
                    if k < pp.len() {
                        assert(pp[k] == i);
                    }
                }
            } else {
                if first_amm_match(ixs, evs[i].event) is Some {
                    assert(pos[pos.len() - 1] == i);
                }
                if pos.contains(i) {
                    let k = choose|k: int| 0 <= k < pos.len() && pos[k] == i;
                    if k < pp.len() {
                        assert(pp[k] < prefix.len());
                    }
                }
            }
        }
    }
}

/// The views of a sequence of event contexts.
pub open spec fn amm_events_view(s: Seq<AmmEventContext>) -> Seq<SpecAmmEventContext> {
    s.map_values(|e: AmmEventContext| e@)
}

/// The views of a sequence of joined actions.
pub open spec fn amm_actions_view(s: Seq<JoinedAmmAction>) -> Seq<SpecJoinedAmmAction> {
    s.map_values(|a: JoinedAmmAction| a@)
}

fn pk_to_string(pk: &Pubkey) -> (text: String)
    ensures
        text@ == base58_encoded(pk@),
{
    pk.to_string()
}

/// Whether account `name` of `ix` is `address`.
fn account_is(ix: &InstructionContext, name: &str, address: &String) -> (r: bool)
    ensures
        r == (ix.accounts@.get(name@) == Some(address@)),
{
    match ix.accounts.get(name) {
        Some(a) => str_eq(a.as_str(), address.as_str()),
        None => false,
    }
}

/// The index of the first instruction context that emitted `ev`.
fn find_amm_match(ix_contexts: &[InstructionContext], ev: &AmmEvent) -> (found: Option<usize>)
    ensures
        match first_amm_match(contexts_view(ix_contexts@), ev@) {
            Some(j) => found == Some(j as usize),
            None => found is None,
        },
{
    let ghost ixs = contexts_view(ix_contexts@);
    let (pool, user) = match ev {
        AmmEvent::Sell(e) => (pk_to_string(&e.pool), pk_to_string(&e.user)),
        AmmEvent::Buy(e) => (pk_to_string(&e.pool), pk_to_string(&e.user)),
    };
    let mut i: usize = 0;
    while i < ix_contexts.len()
        invariant
            0 <= i <= ix_contexts@.len(),
            ixs == contexts_view(ix_contexts@),
            match ev@ {
                SpecAmmEvent::Sell(e) => pool@ == base58_encoded(e.pool) && user@ == base58_encoded(
                    e.user,
                ),
                SpecAmmEvent::Buy(e) => pool@ == base58_encoded(e.pool) && user@ == base58_encoded(
                    e.user,
                ),
            },
            first_amm_match(ixs.take(i as int), ev@) is None,
        decreases ix_contexts@.len() - i,
    {
        let ix = &ix_contexts[i];
        let hit = match ev {
            AmmEvent::Sell(_) => str_eq(ix.ix_name.as_str(), "sell") && account_is(ix, "pool", &pool)
                && account_is(ix, "user", &user),
            AmmEvent::Buy(e) => account_is(ix, "pool", &pool) && account_is(ix, "user", &user)
                && str_eq(ix.ix_name.as_str(), e.ix_name.as_str()),
        };
        assert(ixs.take(i + 1).drop_last() == ixs.take(i as int));
        assert(ixs.take(i + 1).last() == ix@);
        if hit {
            assert(first_amm_match(ixs.take(i + 1), ev@) == Some(i as int));
            proof {
                lemma_first_amm_match_prefix(ixs, ev@, i + 1);
            }
            return Some(i);
        }
        i = i + 1;
    }
    assert(ixs.take(ix_contexts@.len() as int) == ixs);
    None
}

/// Joins each AMM event with the first instruction context that emitted it
/// (see [`amm_ix_matches`]); events without one are dropped.
pub fn join_amm_ix_and_events(ix_contexts: &[InstructionContext], events: &[AmmEventContext]) -> (joined: Vec<
    JoinedAmmAction,
>)
    ensures
        amm_actions_view(joined@) == spec_join_amm(
            contexts_view(ix_contexts@),
            amm_events_view(events@),
        ),
{
    let ghost ixs = contexts_view(ix_contexts@);
    let ghost evs = amm_events_view(events@);
    let mut joined: Vec<JoinedAmmAction> = Vec::new();
    let mut k: usize = 0;
    while k < events.len()
        invariant
            0 <= k <= events@.len(),
            ixs == contexts_view(ix_contexts@),
            evs == amm_events_view(events@),
            amm_actions_view(joined@) == spec_join_amm(ixs, evs.take(k as int)),
        decreases events@.len() - k,
    {
        let ev_ctx = &events[k];
        assert(evs.take(k + 1).drop_last() == evs.take(k as int));
        assert(evs.take(k + 1).last() == ev_ctx@);
        proof {
            lemma_first_amm_match(ixs, ev_ctx.event@);
        }
        match find_amm_match(ix_contexts, &ev_ctx.event) {
            Some(j) => {
                let ghost before = joined@;
                let action = JoinedAmmAction { ix: ix_contexts[j].clone(), event: ev_ctx.clone() };
                joined.push(action);
                assert(amm_actions_view(joined@) == amm_actions_view(before).push(action@));
            },
            None => {},
        }
        k = k + 1;
    }
    assert(evs.take(events@.len() as int) == evs);
    joined
}


/// The joining rule, stated on the instructions' names and accounts: every
/// joined action pairs a sell with the first instruction named `sell`, and a
/// buy with the first instruction named as the buy says, that has the event's
/// pool and user as `pool` and `user` accounts; every event for which such an
/// instruction exists is joined.
pub proof fn lemma_amm_join_rule(ixs: Seq<SpecInstructionContext>, evs: Seq<SpecAmmEventContext>)
    ensures
        forall|k: int|
            #![trigger spec_join_amm(ixs, evs)[k]]
            0 <= k < spec_join_amm(ixs, evs).len() ==> match spec_join_amm(ixs, evs)[k].event.event {
                SpecAmmEvent::Sell(e) => exists|m: int|
                    0 <= m < ixs.len() && spec_join_amm(ixs, evs)[k].ix == ixs[m]
                        && ixs[m].ix_name == "sell"@
                        && ixs[m].accounts.get("pool"@) == Some(base58_encoded(e.pool))
                        && ixs[m].accounts.get("user"@) == Some(base58_encoded(e.user))
                        && forall|l: int|
                        0 <= l < m ==> !(ixs[l].ix_name == "sell"@
                        && ixs[l].accounts.get("pool"@) == Some(base58_encoded(e.pool))
                        && ixs[l].accounts.get("user"@) == Some(base58_encoded(e.user))),
                SpecAmmEvent::Buy(e) => exists|m: int|
                    0 <= m < ixs.len() && spec_join_amm(ixs, evs)[k].ix == ixs[m]
                        && ixs[m].ix_name == e.ix_name
                        && ixs[m].accounts.get("pool"@) == Some(base58_encoded(e.pool))
                        && ixs[m].accounts.get("user"@) == Some(base58_encoded(e.user))
                        && forall|l: int|
                        0 <= l < m ==> !(ixs[l].ix_name == e.ix_name
                        && ixs[l].accounts.get("pool"@) == Some(base58_encoded(e.pool))
                        && ixs[l].accounts.get("user"@) == Some(base58_encoded(e.user))),
            },
        forall|i: int, j: int|
            #![trigger evs[i], ixs[j]]
            0 <= i < evs.len() && 0 <= j < ixs.len() && match evs[i].event {
                SpecAmmEvent::Sell(e) => ixs[j].ix_name == "sell"@
                    && ixs[j].accounts.get("pool"@) == Some(base58_encoded(e.pool))
                    && ixs[j].accounts.get("user"@) == Some(base58_encoded(e.user)),
                SpecAmmEvent::Buy(e) => ixs[j].ix_name == e.ix_name
                    && ixs[j].accounts.get("pool"@) == Some(base58_encoded(e.pool))
                    && ixs[j].accounts.get("user"@) == Some(base58_encoded(e.user)),
            } ==> exists|k: int|
                #![trigger spec_join_amm(ixs, evs)[k]]
                0 <= k < spec_join_amm(ixs, evs).len() && spec_join_amm(ixs, evs)[k].event == evs[i],
{
    lemma_amm_join_keeps_emitted_events(ixs, evs);
    let r = spec_join_amm(ixs, evs);
    let pos = amm_joined_positions(ixs, evs);
    assert forall|k: int| #![trigger r[k]] 0 <= k < r.len() implies match r[k].event.event {
        SpecAmmEvent::Sell(e) => exists|m: int|
            0 <= m < ixs.len() && r[k].ix == ixs[m]
                && ixs[m].ix_name == "sell"@
                && ixs[m].accounts.get("pool"@) == Some(base58_encoded(e.pool))
                && ixs[m].accounts.get("user"@) == Some(base58_encoded(e.user))
                && forall|l: int| 0 <= l < m ==> !(ixs[l].ix_name == "sell"@
                && ixs[l].accounts.get("pool"@) == Some(base58_encoded(e.pool))
                && ixs[l].accounts.get("user"@) == Some(base58_encoded(e.user))),
        SpecAmmEvent::Buy(e) => exists|m: int|
            0 <= m < ixs.len() && r[k].ix == ixs[m]
                && ixs[m].ix_name == e.ix_name
                && ixs[m].accounts.get("pool"@) == Some(base58_encoded(e.pool))
                && ixs[m].accounts.get("user"@) == Some(base58_encoded(e.user))
                && forall|l: int| 0 <= l < m ==> !(ixs[l].ix_name == e.ix_name
                && ixs[l].accounts.get("pool"@) == Some(base58_encoded(e.pool))
                && ixs[l].accounts.get("user"@) == Some(base58_encoded(e.user))),
    } by {
        let p = pos[k];
        assert(0 <= p < evs.len() && r[k].event == evs[p]);
        let ev = r[k].event.event;
        lemma_first_amm_match(ixs, ev);
        let m = first_amm_match(ixs, ev)->0;
        assert(r[k].ix == ixs[m]);
        assert(forall|l: int| 0 <= l < m ==> !amm_ix_matches(#[trigger] ixs[l], ev));
    }
    assert forall|i: int, j: int|
        #![trigger evs[i], ixs[j]]
        0 <= i < evs.len() && 0 <= j < ixs.len() && match evs[i].event {
            SpecAmmEvent::Sell(e) => ixs[j].ix_name == "sell"@
                && ixs[j].accounts.get("pool"@) == Some(base58_encoded(e.pool))
                && ixs[j].accounts.get("user"@) == Some(base58_encoded(e.user)),
            SpecAmmEvent::Buy(e) => ixs[j].ix_name == e.ix_name
                && ixs[j].accounts.get("pool"@) == Some(base58_encoded(e.pool))
                && ixs[j].accounts.get("user"@) == Some(base58_encoded(e.user)),
        } implies exists|k: int|
            #![trigger r[k]]
            0 <= k < r.len() && r[k].event == evs[i] by {
        lemma_first_amm_match(ixs, evs[i].event);
        assert(amm_ix_matches(ixs[j], evs[i].event));
        assert(pos.contains(i));
        let k = choose|k: int| 0 <= k < pos.len() && pos[k] == i;
        assert(r[k].event == evs[i]);
    }
}

} // verus!
