//! The abstract state of a turn, and what each operation does to it.

use vstd::prelude::*;

use crate::decision::ReviewDecision;

verus! {

/// The sending half of a decision channel.
pub type DecisionSender = tokio::sync::oneshot::Sender<ReviewDecision>;

/// What a turn's state holds, as mathematical values.
pub struct TurnView<I> {
    /// Request identifier to the channel its waiter listens on.
    pub approvals: Map<Seq<char>, DecisionSender>,
    /// Input items in arrival order.
    pub input: Seq<I>,
    /// Every decision handed to a channel so far, with that channel, in order.
    pub sent: Seq<(DecisionSender, ReviewDecision)>,
}

impl<I> TurnView<I> {
    /// The state of a turn that has just started.
    pub open spec fn empty() -> TurnView<I> {
        TurnView { approvals: Map::empty(), input: Seq::empty(), sent: Seq::empty() }
    }

    /// The channel registered under `key`, if any.
    pub open spec fn approval(self, key: Seq<char>) -> Option<DecisionSender> {
        if self.approvals.contains_key(key) {
            Some(self.approvals[key])
        } else {
            None
        }
    }

    /// `tx` registered under `key`, displacing whatever was there.
    pub open spec fn insert_approval(self, key: Seq<char>, tx: DecisionSender) -> TurnView<I> {
        TurnView { approvals: self.approvals.insert(key, tx), input: self.input, sent: self.sent }
    }

    /// The entry under `key` dropped from the map, without sending anything.
    pub open spec fn remove_approval(self, key: Seq<char>) -> TurnView<I> {
        TurnView { approvals: self.approvals.remove(key), input: self.input, sent: self.sent }
    }

    /// `decision` sent through the channel under `key`, whose entry leaves the
    /// map; nothing changes when `key` has no entry.
    pub open spec fn deliver(self, key: Seq<char>, decision: ReviewDecision) -> TurnView<I> {
        if self.approvals.contains_key(key) {
            TurnView {
                approvals: self.approvals.remove(key),
                input: self.input,
                sent: self.sent.push((self.approvals[key], decision)),
            }
        } else {
            self
        }
    }

    /// Every pending approval and every queued input dropped; no decision is sent.
    pub open spec fn clear(self) -> TurnView<I> {
        TurnView { approvals: Map::empty(), input: Seq::empty(), sent: self.sent }
    }

    /// `item` appended to the input queue.
    pub open spec fn push_input(self, item: I) -> TurnView<I> {
        TurnView { approvals: self.approvals, input: self.input.push(item), sent: self.sent }
    }

    /// The input queue emptied (its former contents go to the caller).
    pub open spec fn drain_input(self) -> TurnView<I> {
        TurnView { approvals: self.approvals, input: Seq::empty(), sent: self.sent }
    }
}

} // verus!
