//! The shared handle through which every task of a turn reaches its state.

use std::sync::Arc;
use vstd::prelude::*;

use crate::turn::TurnState;

verus! {

/// tokio's asynchronous mutex, carried opaquely.
#[verifier::external_type_specification]
#[verifier::external_body]
#[verifier::reject_recursive_types(T)]
pub struct ExAsyncMutex<T: ?Sized>(tokio::sync::Mutex<T>);

/// Relies on tokio's `Mutex::new`: it wraps the value in an unlocked mutex
/// and does not fail.
pub assume_specification<T: ?Sized>[ tokio::sync::Mutex::<T>::new ](t: T) -> tokio::sync::Mutex<T>
    where
        T: Sized + core::marker::MetaSized,
;

/// A running turn: its identifier and the lock-guarded state that every
/// task working on the turn shares.
#[verifier::reject_recursive_types(I)]
pub struct ActiveTurn<I> {
    pub sub_id: String,
    pub turn_state: Arc<tokio::sync::Mutex<TurnState<I>>>,
}

impl<I> ActiveTurn<I> {
    /// A turn named `sub_id` with nothing pending.
    pub fn new(sub_id: String) -> (r: ActiveTurn<I>)
        ensures
            r.sub_id@ == sub_id@,
    {
        ActiveTurn { sub_id, turn_state: Arc::new(tokio::sync::Mutex::new(TurnState::new())) }
    }
}

impl<I> Default for ActiveTurn<I> {
    fn default() -> (r: ActiveTurn<I>)
        ensures
            r.sub_id@ == Seq::<char>::empty(),
    {
        ActiveTurn::new(String::new())
    }
}

} // verus!
