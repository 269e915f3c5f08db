use landingbench::nonce::{
    data_from_state, judge_nonce, nonce_step, read_nonce, round_id, stale_message, NonceAccount,
    NonceFault, NonceState, NonceStep,
};

fn nonce_data(version: u8, state: u8, nonce: u8) -> Vec<u8> {
    let mut data = vec![version, 0, 0, 0, state, 0, 0, 0];
    data.extend([3u8; 32]);
    data.extend([nonce; 32]);
    data.extend([0u8; 8]);
    data
}

fn account(owner: u8, data: Vec<u8>) -> Option<NonceAccount> {
    Some(NonceAccount { owner: [owner; 32], data })
}

#[test]
fn nonce_is_read_from_its_account() {
    assert_eq!(read_nonce(&account(0, nonce_data(1, 1, 5))), Ok([5; 32]));
    assert_eq!(read_nonce(&account(0, nonce_data(0, 1, 6))), Ok([6; 32]));
}

#[test]
fn accounts_without_a_nonce_are_told_apart() {
    assert_eq!(read_nonce(&None), Err(NonceFault::NotFound));
    assert_eq!(read_nonce(&account(1, nonce_data(1, 1, 5))), Err(NonceFault::Owner));
    assert_eq!(read_nonce(&account(1, vec![])), Err(NonceFault::Owner));
    assert_eq!(read_nonce(&account(0, vec![])), Err(NonceFault::Empty));
    assert_eq!(read_nonce(&account(0, vec![9; 80])), Err(NonceFault::Data));
    assert_eq!(read_nonce(&account(0, vec![1, 0])), Err(NonceFault::Data));
    assert_eq!(read_nonce(&account(0, nonce_data(1, 0, 5))), Err(NonceFault::Uninitialized));
}

#[test]
fn nonce_faults_have_their_messages() {
    assert_eq!(NonceFault::NotFound.message(), "Nonce account not found");
    assert_eq!(NonceFault::Owner.message(), "Failed to parse nonce state");
    assert_eq!(NonceFault::Empty.message(), "Failed to parse nonce state");
    assert_eq!(NonceFault::Data.message(), "Failed to parse nonce state");
    assert_eq!(NonceFault::Uninitialized.message(), "Nonce account uninitialized");
}

#[test]
fn uninitialized_state_has_no_nonce() {
    assert_eq!(data_from_state(&NonceState::Uninitialized), Err(NonceFault::Uninitialized));
    assert_eq!(data_from_state(&NonceState::Initialized { blockhash: [4; 32] }), Ok([4; 32]));
}

#[test]
fn other_nonce_is_fresh() {
    assert!(matches!(judge_nonce([1; 32], None, u64::MAX, 0), NonceStep::Fresh { .. }));
    assert!(matches!(judge_nonce([1; 32], Some([2; 32]), 0, 0), NonceStep::Fresh { .. }));
}

#[test]
fn same_nonce_is_waited_for_and_then_given_up() {
    let same = Some([1; 32]);
    assert!(matches!(judge_nonce([1; 32], same, 199_999_999, 200), NonceStep::Pause { ms: 100 }));
    assert!(matches!(judge_nonce([1; 32], same, 200_000_000, 200), NonceStep::Stale { .. }));
    assert!(matches!(judge_nonce([1; 32], same, 99_999_999, 0), NonceStep::Pause { ms: 100 }));
    assert!(matches!(judge_nonce([1; 32], same, 100_000_000, 0), NonceStep::Stale { .. }));
    assert!(matches!(judge_nonce([1; 32], same, u64::MAX, u64::MAX), NonceStep::Pause { .. }));
}

#[test]
fn step_follows_the_account() {
    let data = account(0, nonce_data(1, 1, 5));
    match nonce_step(&data, Some([4; 32]), 0, 1000) {
        NonceStep::Fresh { blockhash } => assert_eq!(blockhash, [5; 32]),
        other => panic!("{:?}", other),
    }
    assert!(matches!(nonce_step(&data, Some([5; 32]), 0, 1000), NonceStep::Pause { .. }));
    assert!(matches!(
        nonce_step(&None, Some([5; 32]), 0, 1000),
        NonceStep::Failed { fault: NonceFault::NotFound }
    ));
}

#[test]
fn round_is_named_after_its_nonce() {
    assert_eq!(round_id(&[7; 32]), "US517G5965aydkZ46HS38QLi7UQiSojurfbQfKCELFx");
    let rising: Vec<u8> = (0..32).collect();
    let rising: [u8; 32] = rising.try_into().unwrap();
    assert_eq!(round_id(&rising), "1thX6LZfHDZZKUs92febYZhYRcXddmzfzF2NvTkPNE");
    assert_eq!(round_id(&[0; 32]), "1".repeat(32));
    assert_eq!(
        stale_message(&[7; 32]),
        "Nonce hash did not advance before timeout; hash still US517G5965aydkZ46HS38QLi7UQiSojurfbQfKCELFx"
    );
}

#[test]
fn successive_rounds_have_different_names() {
    let previous = [4; 32];
    match nonce_step(&account(0, nonce_data(1, 1, 5)), Some(previous), 0, 1000) {
        NonceStep::Fresh { blockhash } => assert_ne!(round_id(&blockhash), round_id(&previous)),
        other => panic!("{:?}", other),
    }
    assert_ne!(round_id(&[0; 32]), round_id(&[1; 32]));
}

#[test]
fn nonce_data_may_be_longer_but_not_shorter() {
    let mut data = nonce_data(1, 1, 5);
    data.push(77);
    assert_eq!(read_nonce(&account(0, data)), Ok([5; 32]));
    let mut data = nonce_data(1, 1, 5);
    data.pop();
    assert_eq!(read_nonce(&account(0, data)), Err(NonceFault::Data));
    assert_eq!(
        read_nonce(&account(0, vec![0, 0, 0, 0, 0, 0, 0, 0])),
        Err(NonceFault::Uninitialized)
    );
    assert_eq!(read_nonce(&account(0, nonce_data(2, 1, 5))), Err(NonceFault::Data));
    assert_eq!(read_nonce(&account(0, nonce_data(1, 2, 5))), Err(NonceFault::Data));
}

#[test]
fn nonce_faults_have_their_causes() {
    assert_eq!(NonceFault::NotFound.cause(), None);
    assert_eq!(NonceFault::Owner.cause(), Some("invalid account owner"));
    assert_eq!(NonceFault::Empty.cause(), Some("unexpected account data size"));
    assert_eq!(NonceFault::Data.cause(), Some("invalid account data"));
    assert_eq!(NonceFault::Uninitialized.cause(), Some("invalid state for requested operation"));
}
