use filecoin_webapi::config::Config;
use filecoin_webapi::polling::PollingError;
use filecoin_webapi::polling::PollingState;
use filecoin_webapi::polling::ServState;
use filecoin_webapi::polling::WorkerProp;
use std::sync::mpsc::channel;

fn config_with_limits(limits: Vec<(String, u64)>) -> Config {
    Config {
        auth: false,
        listen_addr: "127.0.0.1:8888".to_string(),
        private_cert: None,
        cert_chain: None,
        job_limits: limits,
        allow_tokens: Vec::new(),
    }
}

fn start(state: &mut ServState<u64, u32>, class: &str) -> (u64, std::sync::mpsc::Sender<u64>) {
    let (tx, rx) = channel();
    match state.enqueue(WorkerProp::new(class.to_string(), 0, rx)) {
        PollingState::Started(token) => (token, tx),
        other => panic!("expected Started, got {:?}", other),
    }
}

#[test]
fn count_tracks_registered_records_per_class() {
    let mut state = ServState::<u64, u32>::new(config_with_limits(Vec::new()));
    assert_eq!(state.job_num(&"seal".to_string()), 0);
    let (s0, _tx0) = start(&mut state, "seal");
    let (_s1, tx1) = start(&mut state, "seal");
    let (_p0, _tx2) = start(&mut state, "post");
    // each enqueue moved exactly its own class's count up by one
    assert_eq!(state.job_num(&"seal".to_string()), 2);
    assert_eq!(state.job_num(&"post".to_string()), 1);
    assert_eq!(state.job_num(&"other".to_string()), 0);
    // a removal moves the count down by exactly one
    let (st, _) = state.remove(s0);
    assert_eq!(st, PollingState::Removed);
    assert_eq!(state.job_num(&"seal".to_string()), 1);
    assert_eq!(state.job_num(&"post".to_string()), 1);
    // a Done-consuming poll moves the count down by exactly one
    tx1.send(5).unwrap();
    assert!(matches!(state.get(_s1), PollingState::Done(5)));
    assert_eq!(state.job_num(&"seal".to_string()), 0);
    assert_eq!(state.job_num(&"post".to_string()), 1);
}

#[test]
fn pending_poll_does_not_change_count() {
    let mut state = ServState::<u64, u32>::new(config_with_limits(Vec::new()));
    let (token, _tx) = start(&mut state, "seal");
    assert_eq!(state.get(token), PollingState::Pending);
    assert_eq!(state.job_num(&"seal".to_string()), 1);
}

#[test]
fn disconnected_record_still_counts_until_removed() {
    let mut state = ServState::<u64, u32>::new(config_with_limits(Vec::new()));
    let (token, tx) = start(&mut state, "seal");
    drop(tx);
    assert_eq!(
        state.get(token),
        PollingState::Error(PollingError::Disconnected)
    );
    assert_eq!(state.job_num(&"seal".to_string()), 1);
    let (st, _) = state.remove(token);
    assert_eq!(st, PollingState::Removed);
    assert_eq!(state.job_num(&"seal".to_string()), 0);
}

#[test]
fn admission_arithmetic_at_the_limit() {
    let limits = vec![("seal".to_string(), 2)];
    let mut state = ServState::<u64, u32>::new(config_with_limits(limits));
    assert_eq!(state.job_limit(&"seal".to_string()), 2);
    assert!(state.job_available(&"seal".to_string()));
    let (_t0, _tx0) = start(&mut state, "seal");
    assert!(state.job_available(&"seal".to_string()));
    let (t1, tx1) = start(&mut state, "seal");
    // two running jobs of a class limited to two: no room
    assert!(!state.job_available(&"seal".to_string()));
    // an unrelated class is not affected
    assert!(state.job_available(&"post".to_string()));
    // removing one makes room again
    let (st, _) = state.remove(t1);
    assert_eq!(st, PollingState::Removed);
    drop(tx1);
    assert!(state.job_available(&"seal".to_string()));
    // filling up once more blocks admission once more
    let (_t2, _tx2) = start(&mut state, "seal");
    assert!(!state.job_available(&"seal".to_string()));
}

#[test]
fn done_consumption_frees_admission_room() {
    let limits = vec![("seal".to_string(), 2)];
    let mut state = ServState::<u64, u32>::new(config_with_limits(limits));
    let (t0, tx0) = start(&mut state, "seal");
    let (_t1, _tx1) = start(&mut state, "seal");
    assert!(!state.job_available(&"seal".to_string()));
    tx0.send(8).unwrap();
    assert_eq!(state.get(t0), PollingState::Done(8));
    assert!(state.job_available(&"seal".to_string()));
}

#[test]
fn unconfigured_class_is_unlimited() {
    let limits = vec![("seal".to_string(), 2)];
    let mut state = ServState::<u64, u32>::new(config_with_limits(limits));
    assert_eq!(state.job_limit(&"post".to_string()), u64::MAX);
    assert!(state.job_available(&"post".to_string()));
    let (_t, _tx) = start(&mut state, "post");
    assert!(state.job_available(&"post".to_string()));
}

#[test]
fn zero_limit_admits_nothing() {
    let limits = vec![("seal".to_string(), 0)];
    let state = ServState::<u64, u32>::new(config_with_limits(limits));
    assert_eq!(state.job_limit(&"seal".to_string()), 0);
    assert!(!state.job_available(&"seal".to_string()));
}

#[test]
fn first_limit_entry_wins() {
    let limits = vec![("seal".to_string(), 3), ("seal".to_string(), 9)];
    let state = ServState::<u64, u32>::new(config_with_limits(limits));
    assert_eq!(state.job_limit(&"seal".to_string()), 3);
}
