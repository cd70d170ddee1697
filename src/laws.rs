//! Properties of the turn state that hold for every state and every input.

use vstd::prelude::*;

use crate::decision::ReviewDecision;
use crate::model::{DecisionSender, TurnView};

verus! {

/// The state after `items` are pushed one at a time, first to last, as the
/// state's lock admits the pushes of all producers one after another.
pub open spec fn push_all<I>(v: TurnView<I>, items: Seq<I>) -> TurnView<I>
    decreases items.len(),
{
    if items.len() == 0 {
        v
    } else {
        push_all(v.push_input(items[0]), items.drop_first())
    }
}

/// Pushing a run of items leaves the approvals and sent decisions alone and
/// appends the run to the queue.
pub proof fn lemma_push_all_appends<I>(v: TurnView<I>, items: Seq<I>)
    ensures
        push_all(v, items) == (TurnView {
            approvals: v.approvals,
            input: v.input + items,
            sent: v.sent,
        }),
    decreases items.len(),
{
    if items.len() > 0 {
        lemma_push_all_appends(v.push_input(items[0]), items.drop_first());
        assert(v.input.push(items[0]) + items.drop_first() =~= v.input + items);
    } else {
        assert(v.input + items =~= v.input);
    }
}

/// A decision delivered to a request registered under a fresh identifier
/// goes to that request's channel exactly once: the delivery finds the
/// entry, records the decision on that channel and removes the entry, and a
/// second delivery under the same identifier finds nothing and changes
/// nothing.
pub proof fn lemma_delivered_once<I>(
    v: TurnView<I>,
    key: Seq<char>,
    tx: DecisionSender,
    decision: ReviewDecision,
    again: ReviewDecision,
)
    requires
        !v.approvals.contains_key(key),
    ensures
        ({
            let registered = v.insert_approval(key, tx);
            let delivered = registered.deliver(key, decision);
            &&& registered.approvals.contains_key(key)
            &&& delivered.sent == v.sent.push((tx, decision))
            &&& delivered.approvals == v.approvals
            &&& !delivered.approvals.contains_key(key)
            &&& delivered.deliver(key, again) == delivered
        }),
{
    let registered = v.insert_approval(key, tx);
    assert(registered.approvals.remove(key) =~= v.approvals);
}

/// Registering a second channel under an occupied identifier hands back the
/// first channel, sends nothing, and routes the next delivery under that
/// identifier to the second channel.
pub proof fn lemma_insert_displaces<I>(
    v: TurnView<I>,
    key: Seq<char>,
    second: DecisionSender,
    decision: ReviewDecision,
)
    requires
        v.approvals.contains_key(key),
    ensures
        v.approval(key) == Some(v.approvals[key]),
        v.insert_approval(key, second).sent == v.sent,
        v.insert_approval(key, second).deliver(key, decision).sent == v.sent.push(
            (second, decision),
        ),
{
}

/// Delivering under an identifier with no entry reports that nothing was
/// found and leaves the state exactly as it was.
pub proof fn lemma_deliver_unknown_is_noop<I>(
    v: TurnView<I>,
    key: Seq<char>,
    decision: ReviewDecision,
)
    requires
        !v.approvals.contains_key(key),
    ensures
        v.deliver(key, decision) == v,
{
}

/// Clearing empties both the approvals and the input queue, whatever they
/// held, and delivers no decision to any of the dropped channels.
pub proof fn lemma_clear_empties<I>(v: TurnView<I>)
    ensures
        v.clear().approvals == Map::<Seq<char>, DecisionSender>::empty(),
        v.clear().input == Seq::<I>::empty(),
        v.clear().sent == v.sent,
{
}

/// Items pushed onto an empty queue come out of the next drain in the order
/// they were pushed, and a drain right after that returns nothing.
pub proof fn lemma_drain_in_push_order<I>(v: TurnView<I>, items: Seq<I>)
    requires
        v.input.len() == 0,
    ensures
        push_all(v, items).input == items,
        push_all(v, items).drain_input().input.len() == 0,
{
    lemma_push_all_appends(v, items);
    assert(v.input + items =~= items);
}

/// Whatever the producers and however the lock interleaved their pushes, a
/// drain returns what was queued before followed by every push admitted
/// before it, each exactly once; pushes admitted after it are left for the
/// next drain and are all that it returns.
pub proof fn lemma_drain_takes_each_push_once<I>(v: TurnView<I>, before: Seq<I>, after: Seq<I>)
    ensures
        push_all(v, before).input == v.input + before,
        push_all(v, before).input.to_multiset() == v.input.to_multiset().add(before.to_multiset()),
        push_all(push_all(v, before).drain_input(), after).input == after,
{
    lemma_push_all_appends(v, before);
    lemma_push_all_appends(push_all(v, before).drain_input(), after);
    vstd::seq_lib::lemma_multiset_commutative(v.input, before);
    assert(Seq::<I>::empty() + after =~= after);
}

} // verus!
