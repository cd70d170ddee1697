use std::sync::Arc;

use tokio::sync::oneshot;
use tokio::sync::oneshot::error::TryRecvError;
use turn_state::{ActiveTurn, ReviewDecision, TurnState};

#[test]
fn test_update_pending_approval() {
    let mut turn_state = TurnState::<String>::default();
    let (tx, rx) = oneshot::channel();

    turn_state.insert_pending_approval("test-id".to_string(), tx);

    let updated = turn_state.update_pending_approval("test-id", ReviewDecision::Approved);
    assert!(updated, "Should successfully update pending approval");

    let decision = rx.blocking_recv().expect("Should receive decision");
    assert_eq!(decision, ReviewDecision::Approved);

    let removed = turn_state.remove_pending_approval("test-id");
    assert!(removed.is_none(), "Should not find approval after update");
}

#[test]
fn test_update_nonexistent_approval() {
    let mut turn_state = TurnState::<String>::default();

    let updated = turn_state.update_pending_approval("non-existent", ReviewDecision::Approved);
    assert!(!updated, "Should not update non-existent approval");
}

#[test]
fn test_insert_overwrites_previous_approval() {
    let mut turn_state = TurnState::<String>::default();
    let (tx1, rx1) = oneshot::channel();
    let (tx2, _rx2) = oneshot::channel();

    let prev = turn_state.insert_pending_approval("test-id".to_string(), tx1);
    assert!(prev.is_none(), "Should not have previous approval");

    let prev = turn_state.insert_pending_approval("test-id".to_string(), tx2);
    assert!(prev.is_some(), "Should return previous approval");

    if let Some(prev_tx) = prev {
        prev_tx.send(ReviewDecision::Abort).ok();
    }

    let decision = rx1.blocking_recv().expect("Should receive decision");
    assert_eq!(decision, ReviewDecision::Abort);
}

#[test]
fn deliver_then_remove_finds_nothing() {
    let mut turn_state = TurnState::<String>::new();
    let (tx, mut rx) = oneshot::channel();
    assert!(turn_state.insert_pending_approval("call-1".to_string(), tx).is_none());
    assert!(turn_state.update_pending_approval("call-1", ReviewDecision::Approved));
    assert_eq!(rx.try_recv(), Ok(ReviewDecision::Approved));
    assert!(turn_state.remove_pending_approval("call-1").is_none());
}

#[test]
fn second_delivery_returns_false() {
    let mut turn_state = TurnState::<String>::new();
    let (tx, rx) = oneshot::channel();
    turn_state.insert_pending_approval("call-1".to_string(), tx);
    assert!(turn_state.update_pending_approval("call-1", ReviewDecision::Denied));
    assert!(!turn_state.update_pending_approval("call-1", ReviewDecision::Approved));
    assert_eq!(rx.blocking_recv(), Ok(ReviewDecision::Denied));
}

#[test]
fn overwritten_channel_stays_pending_until_resolved() {
    let mut turn_state = TurnState::<String>::new();
    let (tx_a, mut rx_a) = oneshot::channel();
    let (tx_b, mut rx_b) = oneshot::channel();
    assert!(turn_state.insert_pending_approval("call-1".to_string(), tx_a).is_none());
    let prev = turn_state.insert_pending_approval("call-1".to_string(), tx_b);
    assert!(prev.is_some());
    assert!(turn_state.update_pending_approval("call-1", ReviewDecision::Approved));
    assert_eq!(rx_b.try_recv(), Ok(ReviewDecision::Approved));
    assert_eq!(rx_a.try_recv(), Err(TryRecvError::Empty));
    prev.unwrap().send(ReviewDecision::Abort).ok();
    assert_eq!(rx_a.try_recv(), Ok(ReviewDecision::Abort));
}

#[test]
fn dropping_displaced_channel_closes_it() {
    let mut turn_state = TurnState::<String>::new();
    let (tx_a, mut rx_a) = oneshot::channel();
    let (tx_b, _rx_b) = oneshot::channel();
    turn_state.insert_pending_approval("call-1".to_string(), tx_a);
    let prev = turn_state.insert_pending_approval("call-1".to_string(), tx_b);
    drop(prev);
    assert_eq!(rx_a.try_recv(), Err(TryRecvError::Closed));
}

#[test]
fn update_unknown_key_leaves_others_alone() {
    let mut turn_state = TurnState::<String>::new();
    let (tx, mut rx) = oneshot::channel();
    turn_state.insert_pending_approval("call-1".to_string(), tx);
    turn_state.push_pending_input("msg".to_string());
    assert!(!turn_state.update_pending_approval("call-2", ReviewDecision::Approved));
    assert_eq!(rx.try_recv(), Err(TryRecvError::Empty));
    assert_eq!(turn_state.take_pending_input(), vec!["msg".to_string()]);
    assert!(turn_state.update_pending_approval("call-1", ReviewDecision::ApprovedForSession));
    assert_eq!(rx.try_recv(), Ok(ReviewDecision::ApprovedForSession));
}

#[test]
fn remove_returns_channel_without_sending() {
    let mut turn_state = TurnState::<String>::new();
    let (tx, mut rx) = oneshot::channel();
    turn_state.insert_pending_approval("call-1".to_string(), tx);
    let removed = turn_state.remove_pending_approval("call-1");
    assert!(removed.is_some());
    assert_eq!(rx.try_recv(), Err(TryRecvError::Empty));
    assert!(!turn_state.update_pending_approval("call-1", ReviewDecision::Approved));
    removed.unwrap().send(ReviewDecision::Denied).ok();
    assert_eq!(rx.try_recv(), Ok(ReviewDecision::Denied));
}

#[test]
fn delivery_to_abandoned_receiver_is_silent() {
    let mut turn_state = TurnState::<String>::new();
    let (tx, rx) = oneshot::channel();
    turn_state.insert_pending_approval("call-1".to_string(), tx);
    drop(rx);
    assert!(turn_state.update_pending_approval("call-1", ReviewDecision::Approved));
    assert!(turn_state.remove_pending_approval("call-1").is_none());
}

#[test]
fn keys_are_kept_apart() {
    let mut turn_state = TurnState::<String>::new();
    let (tx1, mut rx1) = oneshot::channel();
    let (tx2, mut rx2) = oneshot::channel();
    let (tx3, mut rx3) = oneshot::channel();
    assert!(turn_state.insert_pending_approval("a".to_string(), tx1).is_none());
    assert!(turn_state.insert_pending_approval("ab".to_string(), tx2).is_none());
    assert!(turn_state.insert_pending_approval("".to_string(), tx3).is_none());
    assert!(turn_state.update_pending_approval("ab", ReviewDecision::Denied));
    assert!(turn_state.update_pending_approval("a", ReviewDecision::Approved));
    assert_eq!(rx1.try_recv(), Ok(ReviewDecision::Approved));
    assert_eq!(rx2.try_recv(), Ok(ReviewDecision::Denied));
    assert_eq!(rx3.try_recv(), Err(TryRecvError::Empty));
    assert!(turn_state.update_pending_approval("", ReviewDecision::Abort));
    assert_eq!(rx3.try_recv(), Ok(ReviewDecision::Abort));
}

#[test]
fn clear_drops_channels_and_input() {
    let mut turn_state = TurnState::<String>::new();
    let (tx1, mut rx1) = oneshot::channel();
    let (tx2, mut rx2) = oneshot::channel();
    turn_state.insert_pending_approval("call-1".to_string(), tx1);
    turn_state.insert_pending_approval("call-2".to_string(), tx2);
    turn_state.push_pending_input("msg-a".to_string());
    turn_state.push_pending_input("msg-b".to_string());
    turn_state.push_pending_input("msg-c".to_string());
    turn_state.clear_pending();
    assert_eq!(rx1.try_recv(), Err(TryRecvError::Closed));
    assert_eq!(rx2.try_recv(), Err(TryRecvError::Closed));
    assert!(turn_state.take_pending_input().is_empty());
    assert!(!turn_state.update_pending_approval("call-1", ReviewDecision::Approved));
    assert!(turn_state.remove_pending_approval("call-2").is_none());
}

#[test]
fn clear_on_empty_state() {
    let mut turn_state = TurnState::<String>::new();
    turn_state.clear_pending();
    assert!(turn_state.take_pending_input().is_empty());
    assert!(turn_state.remove_pending_approval("call-1").is_none());
}

#[test]
fn drain_returns_pushes_in_order() {
    let mut turn_state = TurnState::<String>::new();
    turn_state.push_pending_input("msg-a".to_string());
    turn_state.push_pending_input("msg-b".to_string());
    assert_eq!(
        turn_state.take_pending_input(),
        vec!["msg-a".to_string(), "msg-b".to_string()]
    );
    assert_eq!(turn_state.take_pending_input(), Vec::<String>::new());
}

#[test]
fn drain_of_empty_queue_is_empty() {
    let mut turn_state = TurnState::<u32>::new();
    assert!(turn_state.take_pending_input().is_empty());
    turn_state.push_pending_input(7);
    assert_eq!(turn_state.take_pending_input(), vec![7]);
    assert!(turn_state.take_pending_input().is_empty());
}

#[test]
fn interleaved_producers_each_push_drained_once() {
    let turn: ActiveTurn<String> = ActiveTurn::new("turn-1".to_string());
    let producer_a = Arc::clone(&turn.turn_state);
    let producer_b = Arc::clone(&turn.turn_state);
    producer_a.blocking_lock().push_pending_input("a1".to_string());
    producer_b.blocking_lock().push_pending_input("b1".to_string());
    producer_a.blocking_lock().push_pending_input("a2".to_string());
    let drained = turn.turn_state.blocking_lock().take_pending_input();
    producer_b.blocking_lock().push_pending_input("b2".to_string());
    assert_eq!(
        drained,
        vec!["a1".to_string(), "b1".to_string(), "a2".to_string()]
    );
    let next = turn.turn_state.blocking_lock().take_pending_input();
    assert_eq!(next, vec!["b2".to_string()]);
}

#[test]
fn active_turn_shares_one_state() {
    let turn: ActiveTurn<String> = ActiveTurn::new("sub-7".to_string());
    assert_eq!(turn.sub_id, "sub-7");
    let (tx, mut rx) = oneshot::channel();
    let waiter_side = Arc::clone(&turn.turn_state);
    waiter_side
        .blocking_lock()
        .insert_pending_approval("call-1".to_string(), tx);
    assert!(turn
        .turn_state
        .blocking_lock()
        .update_pending_approval("call-1", ReviewDecision::Approved));
    assert_eq!(rx.try_recv(), Ok(ReviewDecision::Approved));
}

#[test]
fn default_active_turn_is_empty() {
    let turn: ActiveTurn<String> = ActiveTurn::default();
    assert_eq!(turn.sub_id, "");
    assert!(turn.turn_state.blocking_lock().take_pending_input().is_empty());
}

#[test]
fn default_decision_is_denied() {
    assert_eq!(ReviewDecision::default(), ReviewDecision::Denied);
}
