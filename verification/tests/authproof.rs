use filecoin_webapi::config::Config;
use filecoin_webapi::polling::ServState;
use filecoin_webapi::types::RegisteredPoStProof;
use filecoin_webapi::types::WebRegisteredPoStProof;
use filecoin_webapi::verify::request_allowed;

fn config_with_tokens(tokens: Vec<String>) -> Config {
    Config {
        auth: true,
        listen_addr: "0.0.0.0:443".to_string(),
        private_cert: Some("/etc/cert.pem".to_string()),
        cert_chain: None,
        job_limits: Vec::new(),
        allow_tokens: tokens,
    }
}

#[test]
fn verify_token_accepts_configured_tokens_only() {
    let tokens = vec!["SECRET-REDACTED".to_string(), "second".to_string()];
    let state = ServState::<u64, u32>::new(config_with_tokens(tokens));
    assert!(state.verify_token(&"SECRET-REDACTED".to_string()));
    assert!(state.verify_token(&"second".to_string()));
    assert!(!state.verify_token(&"third".to_string()));
    assert!(!state.verify_token(&String::new()));
}

#[test]
fn verify_token_with_empty_configuration() {
    let state = ServState::<u64, u32>::new(config_with_tokens(Vec::new()));
    assert!(!state.verify_token(&"anything".to_string()));
}

#[test]
fn request_allowed_by_token_or_open_path() {
    let tokens = vec!["tok".to_string()];
    let state = ServState::<u64, u32>::new(config_with_tokens(tokens));
    // a valid token passes on any path
    assert!(request_allowed(
        &state,
        &"/sys/query_state".to_string(),
        Some(&"tok".to_string())
    ));
    // a wrong token fails on a protected path
    assert!(!request_allowed(
        &state,
        &"/sys/query_state".to_string(),
        Some(&"bad".to_string())
    ));
    // no token fails on a protected path
    assert!(!request_allowed(&state, &"/sys/query_state".to_string(), None));
    // the open test path passes with no token at all
    assert!(request_allowed(&state, &"/test".to_string(), None));
    // and with a wrong one
    assert!(request_allowed(
        &state,
        &"/test".to_string(),
        Some(&"bad".to_string())
    ));
}

#[test]
fn proof_kind_codes_map_in_order() {
    let expected = [
        RegisteredPoStProof::StackedDrgWinning2KiBV1,
        RegisteredPoStProof::StackedDrgWinning8MiBV1,
        RegisteredPoStProof::StackedDrgWinning512MiBV1,
        RegisteredPoStProof::StackedDrgWinning32GiBV1,
        RegisteredPoStProof::StackedDrgWindow2KiBV1,
        RegisteredPoStProof::StackedDrgWindow8MiBV1,
        RegisteredPoStProof::StackedDrgWindow512MiBV1,
        RegisteredPoStProof::StackedDrgWindow32GiBV1,
    ];
    for (code, kind) in expected.iter().enumerate() {
        let web = WebRegisteredPoStProof::new(code as u32);
        assert_eq!(web.as_object(), *kind);
    }
}
