//! The mutable per-turn store.

use vstd::prelude::*;

use crate::decision::ReviewDecision;
use crate::model::{DecisionSender, TurnView};

verus! {

/// Whether no identifier occurs twice among `entries`.
pub open spec fn keys_unique(entries: Seq<(String, DecisionSender)>) -> bool {
    forall|i: int, j: int|
        0 <= i < entries.len() && 0 <= j < entries.len() && i != j ==> entries[i].0@
            != entries[j].0@
}

/// Whether some entry is registered under `key`.
pub open spec fn has_key(entries: Seq<(String, DecisionSender)>, key: Seq<char>) -> bool {
    exists|i: int| 0 <= i < entries.len() && entries[i].0@ == key
}

/// The map that a list of entries with distinct identifiers stands for.
pub open spec fn entries_map(entries: Seq<(String, DecisionSender)>) -> Map<
    Seq<char>,
    DecisionSender,
> {
    Map::new(
        |k: Seq<char>| has_key(entries, k),
        |k: Seq<char>| entries[choose|i: int| 0 <= i < entries.len() && entries[i].0@ == k].1,
    )
}

proof fn lemma_entry_in_map(entries: Seq<(String, DecisionSender)>, i: int)
    requires
        keys_unique(entries),
        0 <= i < entries.len(),
    ensures
        entries_map(entries).contains_key(entries[i].0@),
        entries_map(entries)[entries[i].0@] == entries[i].1,
{
    let k = entries[i].0@;
    assert(has_key(entries, k));
    let j = choose|j: int| 0 <= j < entries.len() && entries[j].0@ == k;
    assert(j == i);
}

proof fn lemma_push_entry(entries: Seq<(String, DecisionSender)>, key: String, tx: DecisionSender)
    requires
        keys_unique(entries),
        !has_key(entries, key@),
    ensures
        keys_unique(entries.push((key, tx))),
        entries_map(entries.push((key, tx))) == entries_map(entries).insert(key@, tx),
{
    let pushed = entries.push((key, tx));
    let n = entries.len() as int;
    assert forall|i: int, j: int|
        0 <= i < pushed.len() && 0 <= j < pushed.len() && i != j implies pushed[i].0@
        != pushed[j].0@ by {
        if i == n {
            assert(entries[j] == pushed[j]);
        } else if j == n {
            assert(entries[i] == pushed[i]);
        }
    }
    assert forall|k: Seq<char>| #[trigger]
        entries_map(pushed).contains_key(k) == entries_map(entries).insert(key@, tx).contains_key(
            k,
        ) by {
        if has_key(pushed, k) && k != key@ {
            let i = choose|i: int| 0 <= i < pushed.len() && pushed[i].0@ == k;
            assert(entries[i] == pushed[i]);
        }
        if has_key(entries, k) {
            let i = choose|i: int| 0 <= i < entries.len() && entries[i].0@ == k;
            assert(entries[i] == pushed[i]);
        }
        if k == key@ {
            assert(pushed[n].0@ == k);
        }
    }
    assert forall|k: Seq<char>| #[trigger] entries_map(pushed).contains_key(k) implies entries_map(
        pushed,
    )[k] == entries_map(entries).insert(key@, tx)[k] by {
        let i = choose|i: int| 0 <= i < pushed.len() && pushed[i].0@ == k;
        lemma_entry_in_map(pushed, i);
        if i < n {
            assert(entries[i] == pushed[i]);
            lemma_entry_in_map(entries, i);
        }
    }
    assert(entries_map(pushed) =~= entries_map(entries).insert(key@, tx));
}

proof fn lemma_remove_entry(entries: Seq<(String, DecisionSender)>, i: int)
    requires
        keys_unique(entries),
        0 <= i < entries.len(),
    ensures
        keys_unique(entries.remove(i)),
        !has_key(entries.remove(i), entries[i].0@),
        entries_map(entries.remove(i)) == entries_map(entries).remove(entries[i].0@),
{
    let rest = entries.remove(i);
    let key = entries[i].0@;
    // position in `entries` of the entry at position `j` of `rest`
    assert forall|j: int| 0 <= j < rest.len() implies #[trigger] rest[j] == entries[if j < i {
        j
    } else {
        j + 1
    }] by {}
    assert forall|a: int, b: int|
        0 <= a < rest.len() && 0 <= b < rest.len() && a != b implies rest[a].0@ != rest[b].0@ by {
        assert(rest[a] == entries[if a < i { a } else { a + 1 }]);
        assert(rest[b] == entries[if b < i { b } else { b + 1 }]);
    }
    assert forall|j: int| 0 <= j < rest.len() implies rest[j].0@ != key by {
        assert(rest[j] == entries[if j < i { j } else { j + 1 }]);
    }
    assert forall|k: Seq<char>| #[trigger]
        entries_map(rest).contains_key(k) == entries_map(entries).remove(key).contains_key(k) by {
        if has_key(rest, k) {
            let j = choose|j: int| 0 <= j < rest.len() && rest[j].0@ == k;
            assert(rest[j] == entries[if j < i { j } else { j + 1 }]);
        }
        if has_key(entries, k) && k != key {
            let j = choose|j: int| 0 <= j < entries.len() && entries[j].0@ == k;
            let r = if j < i { j } else { j - 1 };
            assert(rest[r] == entries[j]);
        }
    }
    assert forall|k: Seq<char>| #[trigger] entries_map(rest).contains_key(k) implies entries_map(
        rest,
    )[k] == entries_map(entries).remove(key)[k] by {
        let j = choose|j: int| 0 <= j < rest.len() && rest[j].0@ == k;
        let e = if j < i { j } else { j + 1 };
        assert(rest[j] == entries[e]);
        lemma_entry_in_map(rest, j);
        lemma_entry_in_map(entries, e);
    }
    assert(entries_map(rest) =~= entries_map(entries).remove(key));
}

/// Mutable state for a single turn: pending approvals and queued input.
pub struct TurnState<I> {
    pending_approvals: Vec<(String, DecisionSender)>,
    pending_input: Vec<I>,
    /// Each decision handed to a channel, with that channel, in order.
    sent: Ghost<Seq<(DecisionSender, ReviewDecision)>>,
}

impl<I> View for TurnState<I> {
    type V = TurnView<I>;

    closed spec fn view(&self) -> TurnView<I> {
        TurnView {
            approvals: entries_map(self.pending_approvals@),
            input: self.pending_input@,
            sent: self.sent@,
        }
    }
}

impl<I> TurnState<I> {
    /// Each request identifier has at most one entry.
    pub closed spec fn wf(&self) -> bool {
        keys_unique(self.pending_approvals@)
    }

    /// A state with nothing pending.
    pub fn new() -> (r: TurnState<I>)
        ensures
            r.wf(),
            r@ == TurnView::<I>::empty(),
    {
        let r = TurnState {
            pending_approvals: Vec::new(),
            pending_input: Vec::new(),
            sent: Ghost(Seq::empty()),
        };
        assert(entries_map(r.pending_approvals@) =~= Map::empty());
        r
    }

    /// Where the entry for `key` stands in the list, if there is one.
    fn position(&self, key: &str) -> (r: Option<usize>)
        requires
            self.wf(),
        ensures
            match r {
                Some(i) => i < self.pending_approvals@.len() && self.pending_approvals@[i as int].0@
                    == key@,
                None => !has_key(self.pending_approvals@, key@),
            },
    {
        let wanted = key.to_owned();
        let mut i: usize = 0;
        while i < self.pending_approvals.len()
            invariant
                wanted@ == key@,
                i <= self.pending_approvals@.len(),
                forall|j: int| 0 <= j < i ==> self.pending_approvals@[j].0@ != key@,
            decreases self.pending_approvals@.len() - i,
        {
            if self.pending_approvals[i].0 == wanted {
                return Some(i);
            }
            i = i + 1;
        }
        None
    }

    /// Registers `tx` as the channel awaiting a decision for `key`. An entry
    /// already under `key` is displaced, and its channel is handed back
    /// unresolved for the caller to deal with.
    pub fn insert_pending_approval(&mut self, key: String, tx: DecisionSender) -> (r: Option<
        DecisionSender,
    >)
        requires
            old(self).wf(),
        ensures
            final(self).wf(),
            r == old(self)@.approval(key@),
            final(self)@ == old(self)@.insert_approval(key@, tx),
    {
        let ghost k = key@;
        match self.position(key.as_str()) {
            Some(i) => {
                proof {
                    lemma_entry_in_map(self.pending_approvals@, i as int);
                    lemma_remove_entry(self.pending_approvals@, i as int);
                }
                let ghost before = self.pending_approvals@;
                let (_, prev) = self.pending_approvals.remove(i);
                proof {
                    lemma_push_entry(self.pending_approvals@, key, tx);
                }
                self.pending_approvals.push((key, tx));
                assert(entries_map(before).remove(k).insert(k, tx) =~= entries_map(before).insert(
                    k,
                    tx,
                ));
                Some(prev)
            },
            None => {
                proof {
                    lemma_push_entry(self.pending_approvals@, key, tx);
                }
                self.pending_approvals.push((key, tx));
                None
            },
        }
    }
    /// Removes the entry for `key` and hands its channel back without sending
    /// anything on it; `None` when no entry exists.
    pub fn remove_pending_approval(&mut self, key: &str) -> (r: Option<DecisionSender>)
        requires
            old(self).wf(),
        ensures
            final(self).wf(),
            r == old(self)@.approval(key@),
            final(self)@ == old(self)@.remove_approval(key@),
    {
        match self.position(key) {
            Some(i) => {
                proof {
                    lemma_entry_in_map(self.pending_approvals@, i as int);
                    lemma_remove_entry(self.pending_approvals@, i as int);
                }
                let (_, tx) = self.pending_approvals.remove(i);
                Some(tx)
            },
            None => {
                assert(entries_map(self.pending_approvals@).remove(key@) =~= entries_map(
                    self.pending_approvals@,
                ));
                None
            },
        }
    }

    /// Delivers `decision` to the request pending under `key`: the entry
    /// leaves the map and the decision goes through its channel. Returns
    /// whether an entry was found. A waiter that has already gone away makes
    /// the send a silent no-op.
    pub fn update_pending_approval(&mut self, key: &str, decision: ReviewDecision) -> (r: bool)
        requires
            old(self).wf(),
        ensures
            final(self).wf(),
            r == old(self)@.approvals.contains_key(key@),
            final(self)@ == old(self)@.deliver(key@, decision),
    {
        let ghost before = self@;
        match self.remove_pending_approval(key) {
            Some(tx) => {
                let ghost channel = tx;
                let _ = tx.send(decision);
                self.sent = Ghost(self.sent@.push((channel, decision)));
                true
            },
            None => {
                assert(before.approvals.remove(key@) =~= before.approvals);
                false
            },
        }
    }

    /// Drops every pending approval, leaving its waiter to see the channel
    /// close, and every queued input item.
    pub fn clear_pending(&mut self)
        requires
            old(self).wf(),
        ensures
            final(self).wf(),
            final(self)@ == old(self)@.clear(),
    {
        self.pending_approvals.clear();
        self.pending_input.clear();
        assert(entries_map(self.pending_approvals@) =~= Map::empty());
    }

    /// Appends `input` to the queue.
    pub fn push_pending_input(&mut self, input: I)
        requires
            old(self).wf(),
        ensures
            final(self).wf(),
            final(self)@ == old(self)@.push_input(input),
    {
        self.pending_input.push(input);
    }

    /// Removes and returns every queued input item, in arrival order.
    pub fn take_pending_input(&mut self) -> (r: Vec<I>)
        requires
            old(self).wf(),
        ensures
            final(self).wf(),
            r@ == old(self)@.input,
            final(self)@ == old(self)@.drain_input(),
    {
        if self.pending_input.is_empty() {
            assert(self.pending_input@ =~= Seq::empty());
            Vec::with_capacity(0)
        } else {
            let mut ret = Vec::new();
            std::mem::swap(&mut ret, &mut self.pending_input);
            ret
        }
    }
}

impl<I> Default for TurnState<I> {
    fn default() -> (r: TurnState<I>)
        ensures
            r.wf(),
            r@ == TurnView::<I>::empty(),
    {
        TurnState::new()
    }
}

} // verus!
