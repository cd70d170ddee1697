//! The single-use channel through which a decision reaches its waiter.

use vstd::prelude::*;

verus! {

/// The sending half of a tokio oneshot channel, carried opaquely.
#[verifier::external_type_specification]
#[verifier::external_body]
#[verifier::reject_recursive_types(T)]
pub struct ExOneshotSender<T>(tokio::sync::oneshot::Sender<T>);

/// Relies on tokio's `oneshot::Sender::send`: it consumes the sender, never
/// blocks, and when the receiving half is already gone it hands the value
/// back unchanged in `Err`.
pub assume_specification<T>[ tokio::sync::oneshot::Sender::<T>::send ](
    s: tokio::sync::oneshot::Sender<T>,
    t: T,
) -> (r: Result<(), T>)
    ensures
        r matches Err(back) ==> back == t,
;

} // verus!
