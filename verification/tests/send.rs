use landingbench::book::{Landing, LandingBook, MemoObservation};
use landingbench::chain::{memo_program, Address};
use landingbench::config::{ArgsCommitment, CommitmentLevel, Endpoint, EndpointKind};
use landingbench::keys::{decode_private_key, SignedTransaction};
use landingbench::listener::{
    extract_memo, CompiledInstruction, ObservedMessage, ObservedTransaction, TransactionInfo,
    TransactionUpdate,
};
use landingbench::send::{
    commitment_from_args, failure_message, node_config, prepare_send, record_sent, settle_send,
    wait_over, AfterSend, Notice, Route, SendFault, SendOutcome, SendStep, WaitEvent, WaitOutcome,
    Waited,
};
use solana_transaction::Transaction;

const KEY: &str =
    "49W385L4rePHy6PAaQUovbD2aacgN4HsKXSMeUzRg4fmwXszN91JuMFrQRj3vMDpZuRF3ZknQBuRBoWQJEfXstMw";
const WALLET: &str = "cGfHiC6Kgg3FpFZvgwGcswsCRtp4aBP2fzuXRQPizuN";

fn endpoint(name: &str, kind: EndpointKind, tip: Option<u64>) -> Endpoint {
    Endpoint {
        name: name.to_string(),
        url: "https://example.org".to_string(),
        kind,
        tip_lamports: tip,
        tip_wallet: tip.map(|_| WALLET.to_string()),
        api_key: None,
    }
}

fn prepare(endpoint: &Endpoint, connected: bool, shutdown: bool, fee: Option<u64>) -> SendStep {
    let key = decode_private_key(KEY).ok().unwrap();
    prepare_send(
        shutdown,
        endpoint,
        connected,
        &key,
        &Address { bytes: [7; 32] },
        &[5; 32],
        fee,
        1_000_000,
        "1700000000.123456",
        7,
    )
}

fn prepared(endpoint: &Endpoint, connected: bool, fee: Option<u64>) -> (SignedTransaction, Route) {
    match prepare(endpoint, connected, false, fee) {
        SendStep::Send { transaction, route } => (transaction, route),
        other => panic!("{:?}", other),
    }
}

fn fault_text(step: SendStep) -> String {
    match step {
        SendStep::Fail { fault } => fault.message(),
        other => panic!("{:?}", other),
    }
}

fn signature(transaction: &SignedTransaction) -> [u8; 64] {
    transaction.signature.clone().try_into().unwrap()
}

#[test]
fn transaction_for_a_plain_node() {
    let (transaction, route) = prepared(&endpoint("rpc-a", EndpointKind::Rpc, None), false, None);
    assert_eq!(route, Route::Rpc);
    assert_eq!(transaction.wire.len(), 324);
    assert_eq!(transaction.signature.len(), 64);
    assert_eq!(transaction.wire[1..65].to_vec(), transaction.signature);
    let read: Transaction = bincode::deserialize(&transaction.wire).unwrap();
    assert_eq!(
        read.signatures[0].to_string(),
        "5W6GV3diHrPjPmQx8awY6Z8bFnNgqyq5m458QC2pRiKCDKWYDLghB6y5c8nGnVSbXS3YVt6GzYnJL4CKs9iwtEUS"
    );
}

#[test]
fn transaction_with_fee_and_tip() {
    let custom = endpoint("fast", EndpointKind::Custom, Some(5000));
    let (transaction, route) = prepared(&custom, false, Some(2500));
    assert_eq!(route, Route::Rpc);
    assert_eq!(transaction.wire.len(), 425);
    let read: Transaction = bincode::deserialize(&transaction.wire).unwrap();
    assert_eq!(
        read.signatures[0].to_string(),
        "2WjHNLmHFmszuiGAE7MJXkMJHCA3yhHPDputQffw4ZK5C6PjuFkYdSihEfwbSNjfMRhq5eJqVg4c11FXAGrWG3pK"
    );
}

#[test]
fn shutdown_keeps_transactions_from_being_sent() {
    let plain = endpoint("rpc-a", EndpointKind::Rpc, None);
    assert!(matches!(prepare(&plain, false, true, None), SendStep::Skip));
}

#[test]
fn soyas_endpoints_need_a_connection() {
    let soyas = endpoint("quick", EndpointKind::Soyas, Some(1));
    assert_eq!(
        fault_text(prepare(&soyas, false, false, None)),
        "Soyas client not initialized for quick"
    );
    assert_eq!(prepared(&soyas, true, None).1, Route::Soyas);
}

#[test]
fn faults_of_building_come_first() {
    let mut soyas = endpoint("quick", EndpointKind::Soyas, Some(1));
    soyas.tip_wallet = None;
    assert_eq!(
        fault_text(prepare(&soyas, false, false, None)),
        "Soyas endpoint quick missing tip_wallet"
    );
}

#[test]
fn memo_must_fit_into_a_transaction() {
    let longest = "n".repeat(65_535 - 45);
    assert!(matches!(
        prepare(&endpoint(&longest, EndpointKind::Rpc, None), false, false, None),
        SendStep::Send { .. }
    ));
    let longer = "n".repeat(65_536);
    assert!(matches!(
        prepare(&endpoint(&longer, EndpointKind::Rpc, None), false, false, None),
        SendStep::Fail { fault: SendFault::Oversized }
    ));
    assert_eq!(SendFault::Oversized.message(), "Memo does not fit into a transaction");
}

#[test]
fn prepared_transaction_lands_when_it_is_seen() {
    let custom = endpoint("fast", EndpointKind::Custom, Some(5000));
    let (transaction, _) = prepared(&custom, false, Some(2500));
    let mut book: LandingBook<u32, u32> = LandingBook::new();
    let round = "round".to_string();
    record_sent(&mut book, &custom, &signature(&transaction), 100, &round, 1, 2);

    let read: Transaction = bincode::deserialize(&transaction.wire).unwrap();
    let seen = TransactionUpdate {
        transaction: Some(TransactionInfo {
            transaction: Some(ObservedTransaction {
                signatures: vec![read.signatures[0].as_ref().to_vec()],
                message: Some(ObservedMessage {
                    account_keys: read
                        .message
                        .account_keys
                        .iter()
                        .map(|key| key.to_bytes().to_vec())
                        .collect(),
                    instructions: read
                        .message
                        .instructions
                        .iter()
                        .map(|call| CompiledInstruction {
                            program_id_index: call.program_id_index as u32,
                            data: call.data.clone(),
                        })
                        .collect(),
                }),
            }),
        }),
    };
    let (found, memo) = extract_memo(&seen, &memo_program().unwrap()).unwrap();
    assert_eq!(memo, "fast|43ztomQxLTVM2wSvhuUzZnYMLEMCorKDqn8V1fWjV3o6");
    let observation = MemoObservation { signature: found, memo, elapsed_since_start: 350 };
    match book.record_landing(&observation) {
        Landing::Landed { provider, latency, waiter, notifier } => {
            assert_eq!(provider, "fast");
            assert_eq!(latency, 250);
            assert_eq!(waiter, Some(1));
            assert_eq!(notifier, Some(2));
        }
        other => panic!("{:?}", other),
    }
}

#[test]
fn sends_are_recorded_under_their_signature_in_base58() {
    let plain = endpoint("rpc-a", EndpointKind::Rpc, None);
    let mut book: LandingBook<u32, u32> = LandingBook::new();
    let round = "round".to_string();
    let mut bytes = [9u8; 64];
    bytes[0] = 0;
    bytes[1] = 0;
    record_sent(&mut book, &plain, &bytes, 0, &round, 1, 2);
    record_sent(&mut book, &plain, &[9; 64], 0, &round, 3, 4);
    for text in [
        "11YCC9Z77yqfpQNYMEtjfnKbvB43zDzX6Nu1ALfRcvT8muvWkXbSj24qPJcbBbxeVTF21cLch1LDDdWB3pD1qS",
        "BUguQsv2ZuHus54HAFzjdJHzZBkygAjKhEeYwSG19tUfUyvvz3worsdQCdAXDNjakJHioSiyxhFiDJrm8XpSXRA",
    ] {
        let observation = MemoObservation {
            signature: text.to_string(),
            memo: "rpc-a|x".to_string(),
            elapsed_since_start: 1,
        };
        assert!(matches!(book.record_landing(&observation), Landing::Landed { .. }));
    }
}

#[test]
fn nodes_get_transactions_without_simulation_or_retries() {
    let config = node_config(commitment_from_args(ArgsCommitment::Finalized));
    assert!(config.skip_preflight);
    assert_eq!(config.max_retries, 0);
    assert_eq!(config.preflight_commitment, CommitmentLevel::Finalized);
    assert_eq!(commitment_from_args(ArgsCommitment::Processed), CommitmentLevel::Processed);
    assert_eq!(commitment_from_args(ArgsCommitment::Confirmed), CommitmentLevel::Confirmed);
}

#[test]
fn failures_name_their_route() {
    assert_eq!(failure_message(Route::Rpc, "down"), "RPC send failure: down");
    assert_eq!(failure_message(Route::Soyas, "down"), "Soyas send failure: down");
}

#[test]
fn ends_of_waits_are_reported() {
    let landed = wait_over(WaitEvent::Acknowledged);
    assert_eq!(landed, Waited::Told { outcome: WaitOutcome::SelfLanded });
    assert!(matches!(landed.notice(), Notice::Nothing));
    match wait_over(WaitEvent::RoundChanged { ok: true }).notice() {
        Notice::Info { text } => {
            assert_eq!(text, "Round landed by another endpoint; skipping wait")
        }
        other => panic!("{:?}", other),
    }
    match wait_over(WaitEvent::RoundChanged { ok: false }).notice() {
        Notice::Warning { text } => assert_eq!(text, "Landing waiter dropped before completion"),
        other => panic!("{:?}", other),
    }
    match wait_over(WaitEvent::Elapsed).notice() {
        Notice::Warning { text } => assert_eq!(text, "Timed out waiting for landing; continuing"),
        other => panic!("{:?}", other),
    }
}

#[test]
fn failed_send_records_nothing_and_waits_for_nothing() {
    let plain = endpoint("rpc-a", EndpointKind::Rpc, None);
    let mut book: LandingBook<u32, u32> = LandingBook::new();
    let round = "round".to_string();
    let outcome = SendOutcome::Failed { cause: "down".to_string() };
    match settle_send(&mut book, &plain, Route::Rpc, outcome, 0, &round, 1, 2, 500) {
        AfterSend::Report { text } => assert_eq!(text, "RPC send failure: down"),
        other => panic!("{:?}", other),
    }
    assert_eq!(book.round_notifier(&round), None);
    assert_eq!(book.finalize().providers.len(), 0);
}

#[test]
fn taken_send_is_recorded_and_waited_for() {
    let plain = endpoint("rpc-a", EndpointKind::Rpc, None);
    let mut book: LandingBook<u32, u32> = LandingBook::new();
    let round = "round".to_string();
    let outcome = SendOutcome::Taken { signature: [9; 64] };
    let after = settle_send(&mut book, &plain, Route::Rpc, outcome, 0, &round, 1, 2, 500);
    assert!(matches!(after, AfterSend::Wait { ms: 500 }));
    assert_eq!(book.round_notifier(&round), Some(&2));
    assert_eq!(book.finalize().providers[0].name, "rpc-a");
}
