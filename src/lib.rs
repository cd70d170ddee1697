//! Per-turn coordination state: pending approval requests, each waiting on a
//! single-use decision channel, and a queue of input items that arrived while
//! the turn was running.

mod active;
mod channel;
mod decision;
mod laws;
mod model;
mod turn;

pub use active::ActiveTurn;
pub use decision::ReviewDecision;
pub use model::{DecisionSender, TurnView};
pub use turn::TurnState;
pub use laws::{
    lemma_clear_empties, lemma_deliver_unknown_is_noop, lemma_delivered_once,
    lemma_drain_in_push_order, lemma_drain_takes_each_push_once, lemma_insert_displaces,
    lemma_push_all_appends, push_all,
};
