use filecoin_webapi::config::Config;
use filecoin_webapi::polling::PollingError;
use filecoin_webapi::polling::PollingState;
use filecoin_webapi::polling::ServState;
use filecoin_webapi::polling::WorkerProp;
use std::sync::mpsc::channel;
use std::sync::mpsc::Receiver;
use filecoin_webapi::channel::RecvOutcome;

fn empty_config() -> Config {
    Config {
        auth: false,
        listen_addr: String::new(),
        private_cert: None,
        cert_chain: None,
        job_limits: Vec::new(),
        allow_tokens: Vec::new(),
    }
}

fn started(state: PollingState<u64>) -> u64 {
    match state {
        PollingState::Started(token) => token,
        other => panic!("expected Started, got {:?}", other),
    }
}

fn enqueue_job(
    state: &mut ServState<u64, u32>,
    class: &str,
    handle: u32,
) -> (u64, std::sync::mpsc::Sender<u64>) {
    let (tx, rx): (std::sync::mpsc::Sender<u64>, Receiver<u64>) = channel();
    let token = started(state.enqueue(WorkerProp::new(class.to_string(), handle, rx)));
    (token, tx)
}

#[test]
fn handles_are_distinct_and_increasing() {
    let mut state = ServState::<u64, u32>::new(empty_config());
    let (t0, _tx0) = enqueue_job(&mut state, "seal", 10);
    assert_eq!(t0, 0);
    // polls and removals in between never lower the handle supply
    assert_eq!(state.get(99), PollingState::Error(PollingError::NotExist));
    let (t1, _tx1) = enqueue_job(&mut state, "seal", 11);
    assert_eq!(t1, 1);
    let (st, _) = state.remove(t0);
    assert_eq!(st, PollingState::Removed);
    let (t2, _tx2) = enqueue_job(&mut state, "post", 12);
    assert_eq!(t2, 2);
    assert!(t0 < t1 && t1 < t2);
}

#[test]
fn poll_pending_then_done_then_not_exist() {
    let mut state = ServState::<u64, u32>::new(empty_config());
    let (token, tx) = enqueue_job(&mut state, "seal", 1);
    // nothing delivered yet: immediately Pending, never blocking
    assert_eq!(state.get(token), PollingState::Pending);
    assert_eq!(state.get(token), PollingState::Pending);
    // the background computation completes
    tx.send(42).unwrap();
    assert_eq!(state.get(token), PollingState::Done(42));
    // the Done answer consumed the record
    assert_eq!(state.get(token), PollingState::Error(PollingError::NotExist));
    assert_eq!(state.get(token), PollingState::Error(PollingError::NotExist));
}

#[test]
fn remove_without_completion() {
    let mut state = ServState::<u64, u32>::new(empty_config());
    let (token, _tx) = enqueue_job(&mut state, "seal", 7);
    let (st, handle) = state.remove(token);
    assert_eq!(st, PollingState::Removed);
    // the stored execution handle is surrendered for cancellation
    assert_eq!(handle, Some(7));
    assert_eq!(state.get(token), PollingState::Error(PollingError::NotExist));
}

#[test]
fn never_issued_handle_not_exist() {
    let mut state = ServState::<u64, u32>::new(empty_config());
    assert_eq!(state.get(5), PollingState::Error(PollingError::NotExist));
    let (st, handle) = state.remove(5);
    assert_eq!(st, PollingState::Error(PollingError::NotExist));
    assert_eq!(handle, None);
}

#[test]
fn removal_is_final() {
    let mut state = ServState::<u64, u32>::new(empty_config());
    let (token, tx) = enqueue_job(&mut state, "seal", 3);
    let (st, handle) = state.remove(token);
    assert_eq!(st, PollingState::Removed);
    assert_eq!(handle, Some(3));
    // even a late delivery cannot revive the removed record
    let _ = tx.send(1);
    assert_eq!(state.get(token), PollingState::Error(PollingError::NotExist));
    let (again, none) = state.remove(token);
    assert_eq!(again, PollingState::Error(PollingError::NotExist));
    assert_eq!(none, None);
}

#[test]
fn disconnected_repeats_until_removed() {
    let mut state = ServState::<u64, u32>::new(empty_config());
    let (token, tx) = enqueue_job(&mut state, "seal", 4);
    // the computation goes away without sending
    drop(tx);
    assert_eq!(
        state.get(token),
        PollingState::Error(PollingError::Disconnected)
    );
    // the record stays queryable and repeats the answer
    assert_eq!(
        state.get(token),
        PollingState::Error(PollingError::Disconnected)
    );
    let (st, handle) = state.remove(token);
    assert_eq!(st, PollingState::Removed);
    assert_eq!(handle, Some(4));
    assert_eq!(state.get(token), PollingState::Error(PollingError::NotExist));
}

#[test]
fn settle_decides_each_outcome() {
    let mut state = ServState::<u64, u32>::new(empty_config());
    let (token, _tx) = enqueue_job(&mut state, "seal", 9);
    assert_eq!(
        state.settle(token, RecvOutcome::Empty),
        PollingState::Pending
    );
    assert_eq!(
        state.settle(token, RecvOutcome::Disconnected),
        PollingState::Error(PollingError::Disconnected)
    );
    assert_eq!(
        state.settle(token, RecvOutcome::Value(9000)),
        PollingState::Done(9000)
    );
    // the Done answer consumed the record
    assert_eq!(state.get(token), PollingState::Error(PollingError::NotExist));
}

#[test]
fn late_value_is_delivered_not_lost() {
    // a value sent before the first poll is answered at the first poll
    let mut state = ServState::<u64, u32>::new(empty_config());
    let (token, tx) = enqueue_job(&mut state, "seal", 2);
    tx.send(7).unwrap();
    assert_eq!(state.get(token), PollingState::Done(7));
}
