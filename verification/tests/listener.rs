use landingbench::chain::memo_program;
use landingbench::config::{ArgsCommitment, CommitmentLevel, GrpcEndpoint, GrpcKind};
use landingbench::listener::{
    confirm_step, extract_memo, find_memo, plan_listener, run_step, setup_step,
    CompiledInstruction, ListenerPlan, ObservedMessage, ObservedTransaction, RunAction, RunEvent,
    SetupStage, StopReason, StreamItem, StreamUpdate, TransactionInfo, TransactionUpdate,
    UnsupportedStream,
};

fn endpoint(url: &str, token: Option<&str>) -> GrpcEndpoint {
    GrpcEndpoint {
        name: "listener".to_string(),
        url: url.to_string(),
        x_token: token.map(|t| t.to_string()),
        kind: GrpcKind::Yellowstone,
    }
}

fn plan(url: &str, token: Option<&str>) -> ListenerPlan {
    plan_listener(&endpoint(url, token), ArgsCommitment::Confirmed, "nonce").unwrap()
}

fn instruction(index: u32, data: &[u8]) -> CompiledInstruction {
    CompiledInstruction { program_id_index: index, data: data.to_vec() }
}

fn message(instructions: Vec<CompiledInstruction>) -> ObservedMessage {
    let program = memo_program().unwrap().bytes.to_vec();
    ObservedMessage { account_keys: vec![vec![0; 32], program], instructions }
}

fn update(signatures: Vec<Vec<u8>>, message: Option<ObservedMessage>) -> TransactionUpdate {
    TransactionUpdate {
        transaction: Some(TransactionInfo {
            transaction: Some(ObservedTransaction { signatures, message }),
        }),
    }
}

fn extract(update: &TransactionUpdate) -> Option<(String, String)> {
    extract_memo(update, &memo_program().unwrap())
}

fn run(event: RunEvent) -> RunAction {
    run_step(&event, &memo_program().unwrap())
}

#[test]
fn memo_and_signature_are_extracted() {
    let seen = update(
        vec![vec![9; 64], vec![1; 64]],
        Some(message(vec![instruction(0, &[4, 0, 0, 0]), instruction(1, b"rpc-a|tail")])),
    );
    assert_eq!(
        extract(&seen),
        Some((
            "BUguQsv2ZuHus54HAFzjdJHzZBkygAjKhEeYwSG19tUfUyvvz3worsdQCdAXDNjakJHioSiyxhFiDJrm8XpSXRA"
                .to_string(),
            "rpc-a|tail".to_string()
        ))
    );
}

#[test]
fn first_readable_memo_counts() {
    let program = memo_program().unwrap();
    let seen = message(vec![
        instruction(7, b"nobody"),
        instruction(1, &[0xff, 0xfe]),
        instruction(1, "é|x".as_bytes()),
        instruction(1, b"later"),
    ]);
    assert_eq!(find_memo(&seen, &program), Some("é|x".to_string()));
    assert_eq!(find_memo(&message(vec![instruction(0, b"other")]), &program), None);
    assert_eq!(find_memo(&message(vec![]), &program), None);
}

#[test]
fn incomplete_transactions_hold_no_memo() {
    let memo = || Some(message(vec![instruction(1, b"x|y")]));
    assert_eq!(extract(&TransactionUpdate { transaction: None }), None);
    assert_eq!(
        extract(&TransactionUpdate { transaction: Some(TransactionInfo { transaction: None }) }),
        None
    );
    assert_eq!(extract(&update(vec![], memo())), None);
    assert_eq!(extract(&update(vec![vec![9; 64]], None)), None);
    assert!(extract(&update(vec![vec![9; 64]], memo())).is_some());
}

#[test]
fn plan_subscribes_to_the_nonce_account() {
    let plan = plan("http://host:1", None);
    assert_eq!(plan.name, "listener");
    assert_eq!(plan.url, "http://host:1");
    assert_eq!(plan.token, None);
    assert!(!plan.tls);
    assert_eq!(plan.filter_name, "nonce-filter");
    assert_eq!(plan.account_include, vec!["nonce".to_string()]);
    assert_eq!(plan.commitment, CommitmentLevel::Confirmed);
}

#[test]
fn blank_tokens_are_dropped_and_others_kept_as_they_are() {
    assert_eq!(plan("http://host", Some("")).token, None);
    assert_eq!(plan("http://host", Some(" \t")).token, None);
    assert_eq!(plan("http://host", Some(" abc ")).token, Some(" abc ".to_string()));
}

#[test]
fn secure_addresses_use_tls() {
    assert!(plan("https://host", None).tls);
    assert!(!plan("http://host", None).tls);
    assert!(!plan("HTTPS://host", None).tls);
}

#[test]
fn unsupported_stream_has_its_message() {
    assert_eq!(
        UnsupportedStream.message(),
        "Only yellowstone gRPC endpoints are supported for now"
    );
}

#[test]
fn setup_goes_through_its_stages() {
    let full = plan("https://host", Some("token"));
    let bare = plan("http://host", None);
    assert_eq!(setup_step(&full, SetupStage::Build, true), Ok(SetupStage::Token));
    assert_eq!(setup_step(&full, SetupStage::Token, true), Ok(SetupStage::Tls));
    assert_eq!(setup_step(&full, SetupStage::Tls, true), Ok(SetupStage::Connect));
    assert_eq!(setup_step(&bare, SetupStage::Build, true), Ok(SetupStage::Connect));
    assert_eq!(setup_step(&bare, SetupStage::Connect, true), Ok(SetupStage::Subscribe));
    assert_eq!(setup_step(&bare, SetupStage::Subscribe, true), Ok(SetupStage::Request));
    assert_eq!(setup_step(&bare, SetupStage::Request, true), Ok(SetupStage::Confirm));
    let token_only = plan("http://host", Some("token"));
    assert_eq!(setup_step(&token_only, SetupStage::Token, true), Ok(SetupStage::Connect));
    let tls_only = plan("https://host", None);
    assert_eq!(setup_step(&tls_only, SetupStage::Build, true), Ok(SetupStage::Tls));
}

#[test]
fn failed_stage_ends_the_setup() {
    let plan = plan("https://host", Some("token"));
    for (stage, text) in [
        (SetupStage::Build, "Failed to build gRPC client"),
        (SetupStage::Token, "Failed to attach x-token"),
        (SetupStage::Tls, "Failed to set TLS config"),
        (SetupStage::Connect, "Failed to connect to gRPC endpoint"),
        (SetupStage::Subscribe, "Failed to subscribe"),
        (SetupStage::Request, "Failed to send subscribe request"),
        (SetupStage::Confirm, "Failed to confirm subscription"),
    ] {
        assert_eq!(setup_step(&plan, stage, false).unwrap_err().message(), text);
    }
}

#[test]
fn setup_takes_six_steps_at_most() {
    for (url, token, steps) in [
        ("https://h", Some("t"), 6),
        ("https://h", None, 5),
        ("http://h", Some("t"), 5),
        ("http://h", None, 4),
    ] {
        let plan = plan(url, token);
        let mut stage = SetupStage::Build;
        for _ in 0..steps {
            assert_ne!(stage, SetupStage::Confirm);
            stage = setup_step(&plan, stage, true).unwrap();
        }
        assert_eq!(stage, SetupStage::Confirm);
    }
}

#[test]
fn first_message_confirms_the_subscription() {
    let item = |update| StreamItem::Message { update };
    assert_eq!(confirm_step(&item(StreamUpdate::Ping)), Ok(true));
    assert_eq!(confirm_step(&item(StreamUpdate::Other)), Ok(true));
    assert_eq!(confirm_step(&item(StreamUpdate::Empty)), Ok(false));
    assert_eq!(confirm_step(&StreamItem::Error), Err(StopReason::Confirm));
    assert_eq!(confirm_step(&StreamItem::Closed), Err(StopReason::ClosedUnconfirmed));
    assert_eq!(
        StopReason::ClosedUnconfirmed.message(),
        "Stream closed before subscription confirmed"
    );
}

#[test]
fn running_listener_hands_on_memos_and_answers_pings() {
    let seen = update(vec![vec![9; 64]], Some(message(vec![instruction(1, b"a|b")])));
    let item = |update| RunEvent::Item { item: StreamItem::Message { update } };
    match run(item(StreamUpdate::Transaction { update: seen })) {
        RunAction::Forward { memo, .. } => assert_eq!(memo, "a|b"),
        other => panic!("{:?}", other),
    }
    let blank = TransactionUpdate { transaction: None };
    assert!(matches!(run(item(StreamUpdate::Transaction { update: blank })), RunAction::Await));
    assert!(matches!(run(item(StreamUpdate::Ping)), RunAction::Answer { id: 1 }));
    assert!(matches!(run(item(StreamUpdate::Empty)), RunAction::Await));
    assert!(matches!(run(item(StreamUpdate::Other)), RunAction::Await));
    assert!(matches!(run(RunEvent::Forwarded { ok: true }), RunAction::Await));
    assert!(matches!(run(RunEvent::Answered { ok: true }), RunAction::Await));
}

#[test]
fn running_listener_stops() {
    for (event, text) in [
        (RunEvent::Shutdown, "Stopping gRPC listener (shutdown)"),
        (RunEvent::Item { item: StreamItem::Error }, "Stream error"),
        (RunEvent::Item { item: StreamItem::Closed }, "Stream closed by server"),
        (RunEvent::Forwarded { ok: false }, "Receiver dropped; stopping listener"),
        (RunEvent::Answered { ok: false }, "Ping reply failed"),
    ] {
        match run(event) {
            RunAction::Stop { reason } => assert_eq!(reason.message(), text),
            other => panic!("{:?}", other),
        }
    }
}
