use landingbench::chain::{
    assemble_instructions, build_instructions, memo_program, nonce_address, tip_for, Address,
    AddressFault, BuildFault, Instruction, Tip,
};
use landingbench::config::{ConfigToml, Endpoint, EndpointKind};
use landingbench::payload::{memo_payload, random_ix_payload, seed_text, MemoCounter};

const MEMO_PROGRAM: [u8; 32] = [
    216, 120, 3, 129, 187, 94, 255, 59, 122, 104, 254, 104, 186, 71, 170, 2, 22, 18, 194, 84, 18,
    170, 34, 240, 158, 69, 253, 129, 235, 149, 252, 119,
];
const RECENT_BLOCKHASHES: [u8; 32] = [
    6, 167, 213, 23, 25, 44, 86, 142, 224, 138, 132, 95, 115, 210, 151, 136, 207, 3, 92, 49, 69,
    178, 26, 179, 68, 216, 6, 46, 169, 64, 0, 0,
];
const COMPUTE_BUDGET: [u8; 32] = [
    3, 6, 70, 111, 229, 33, 23, 50, 255, 236, 173, 186, 114, 195, 155, 231, 188, 140, 229, 187,
    197, 247, 18, 107, 44, 67, 155, 58, 64, 0, 0, 0,
];
const WALLET: &str = "cGfHiC6Kgg3FpFZvgwGcswsCRtp4aBP2fzuXRQPizuN";

fn address(byte: u8) -> Address {
    Address { bytes: [byte; 32] }
}

fn endpoint(kind: EndpointKind, tip: Option<u64>, wallet: Option<&str>) -> Endpoint {
    Endpoint {
        name: "fast".to_string(),
        url: "https://example.org".to_string(),
        kind,
        tip_lamports: tip,
        tip_wallet: wallet.map(|w| w.to_string()),
        api_key: None,
    }
}

fn build(endpoint: &Endpoint, fee: Option<u64>) -> Result<Vec<Instruction>, BuildFault> {
    build_instructions(
        endpoint,
        &address(7),
        &address(1),
        &endpoint.name,
        fee,
        1_000_000,
        "1700000000.123456",
        7,
    )
}

fn metas(ix: &Instruction) -> Vec<([u8; 32], bool, bool)> {
    ix.accounts.iter().map(|m| (m.pubkey.bytes, m.is_signer, m.is_writable)).collect()
}

#[test]
fn memo_program_has_its_address() {
    assert_eq!(memo_program(), Ok(Address { bytes: MEMO_PROGRAM }));
}

#[test]
fn nonce_account_is_parsed() {
    let mut config = ConfigToml::create_default().config;
    config.nonce_account = "US517G5965aydkZ46HS38QLi7UQiSojurfbQfKCELFx".to_string();
    assert_eq!(nonce_address(&config), Ok(address(7)));
    config.nonce_account = "short".to_string();
    assert_eq!(nonce_address(&config), Err(AddressFault::WrongSize));
    config.nonce_account = "0OIl".to_string();
    assert_eq!(nonce_address(&config), Err(AddressFault::Invalid));
    config.nonce_account = "1".repeat(45);
    assert_eq!(nonce_address(&config), Err(AddressFault::WrongSize));
    assert_eq!(AddressFault::WrongSize.message(), "String is the wrong size");
    assert_eq!(AddressFault::Invalid.message(), "Invalid Base58 string");
}

#[test]
fn plain_transaction_advances_the_nonce_and_carries_the_memo() {
    let built = build(&endpoint(EndpointKind::Rpc, None, None), None).unwrap();
    assert_eq!(built.len(), 2);
    assert_eq!(built[0].program_id, address(0));
    assert_eq!(built[0].data, vec![4, 0, 0, 0]);
    assert_eq!(
        metas(&built[0]),
        vec![
            ([7; 32], false, true),
            (RECENT_BLOCKHASHES, false, false),
            ([1; 32], true, false),
        ]
    );
    assert_eq!(built[1].program_id.bytes, MEMO_PROGRAM);
    assert_eq!(built[1].accounts, vec![]);
    assert_eq!(
        built[1].data,
        b"fast|43ztomQxLTVM2wSvhuUzZnYMLEMCorKDqn8V1fWjV3o6".to_vec()
    );
}

#[test]
fn fee_and_tip_stand_around_the_memo() {
    let built = build(&endpoint(EndpointKind::Custom, Some(5000), Some(WALLET)), Some(2500)).unwrap();
    assert_eq!(built.len(), 5);
    assert_eq!(built[1].program_id.bytes, COMPUTE_BUDGET);
    assert_eq!(built[1].accounts, vec![]);
    assert_eq!(built[1].data, vec![3, 0xc4, 9, 0, 0, 0, 0, 0, 0]);
    assert_eq!(built[2].program_id.bytes, COMPUTE_BUDGET);
    assert_eq!(built[2].accounts, vec![]);
    assert_eq!(built[2].data, vec![2, 0x40, 0x42, 0x0f, 0]);
    assert_eq!(built[3].program_id.bytes, MEMO_PROGRAM);
    assert_eq!(built[4].program_id, address(0));
    assert_eq!(built[4].data, vec![2, 0, 0, 0, 0x88, 0x13, 0, 0, 0, 0, 0, 0]);
    assert_eq!(metas(&built[4]), vec![([1; 32], true, true), ([9; 32], false, true)]);
}

#[test]
fn extreme_fees_and_tips_are_encoded() {
    let built = assemble_instructions(
        &address(7),
        &address(1),
        Some(u64::MAX),
        u32::MAX,
        &address(8),
        vec![1],
        Some((u64::MAX, address(9))),
    );
    assert_eq!(built[1].data, vec![3, 255, 255, 255, 255, 255, 255, 255, 255]);
    assert_eq!(built[2].data, vec![2, 255, 255, 255, 255]);
    assert_eq!(built[4].data, vec![2, 0, 0, 0, 255, 255, 255, 255, 255, 255, 255, 255]);
}

#[test]
fn plain_nodes_and_zero_tips_are_not_tipped() {
    assert_eq!(build(&endpoint(EndpointKind::Rpc, Some(5), Some(WALLET)), None).unwrap().len(), 2);
    assert_eq!(build(&endpoint(EndpointKind::Custom, Some(0), None), None).unwrap().len(), 2);
    assert_eq!(build(&endpoint(EndpointKind::Custom, None, None), None).unwrap().len(), 2);
    assert_eq!(build(&endpoint(EndpointKind::Soyas, Some(5), Some(WALLET)), None).unwrap().len(), 3);
}

#[test]
fn tips_are_told_apart() {
    let custom = endpoint(EndpointKind::Custom, Some(5), Some(WALLET));
    assert!(matches!(tip_for(&custom), Tip::Pay { lamports: 5, .. }));
    assert!(matches!(tip_for(&endpoint(EndpointKind::Soyas, Some(5), None)), Tip::Walletless));
    assert!(matches!(tip_for(&endpoint(EndpointKind::Rpc, Some(5), None)), Tip::Unpaid));
}

#[test]
fn missing_wallet_is_reported() {
    let fault = build(&endpoint(EndpointKind::Soyas, Some(5), None), None).unwrap_err();
    assert_eq!(fault.message(), "Soyas endpoint fast missing tip_wallet");
    let fault = build(&endpoint(EndpointKind::Custom, Some(5), None), None).unwrap_err();
    assert_eq!(fault.message(), "Custom endpoint fast missing tip_wallet");
}

#[test]
fn invalid_wallet_is_reported() {
    let fault = build(&endpoint(EndpointKind::Custom, Some(5), Some("abc")), None).unwrap_err();
    assert_eq!(fault.message(), "Invalid tip_wallet for fast: String is the wrong size");
    let fault = build(&endpoint(EndpointKind::Custom, Some(5), Some("0")), None).unwrap_err();
    assert_eq!(fault.message(), "Invalid tip_wallet for fast: Invalid Base58 string");
}

#[test]
fn memo_program_fault_has_its_message() {
    let fault = BuildFault::MemoProgram { fault: AddressFault::Invalid };
    assert_eq!(fault.message(), "Invalid memo program id: Invalid Base58 string");
}

#[test]
fn memo_is_the_provider_and_a_hash() {
    assert_eq!(seed_text("rpc-a", "1700000000.123456", 7), "rpc-a|1700000000.123456|7");
    assert_eq!(
        random_ix_payload("rpc-a", "1700000000.123456", 7),
        b"rpc-a|yzKNxwUXtiFepUTKDq4jYotE2rCT1vmDq1RQerX8stJ".to_vec()
    );
    assert_ne!(
        random_ix_payload("rpc-a", "1700000000.123456", 7),
        random_ix_payload("rpc-a", "1700000000.123456", 8)
    );
    assert_eq!(memo_payload("é", "x"), "é|x".as_bytes().to_vec());
}

#[test]
fn memos_of_one_counter_differ() {
    let mut counter = MemoCounter::new();
    let mut memos: Vec<Vec<u8>> = Vec::new();
    for expected in 0..50 {
        let count = counter.take();
        assert_eq!(count, expected);
        memos.push(random_ix_payload("rpc-a", "1700000000.123456", count));
    }
    for i in 0..memos.len() {
        for j in 0..i {
            assert_ne!(memos[i], memos[j]);
        }
    }
}

#[test]
fn tail_of_a_memo_is_short_base58() {
    for count in 0..50 {
        let memo = String::from_utf8(random_ix_payload("a|b", "now", count)).unwrap();
        let tail = memo.strip_prefix("a|b|").unwrap();
        assert!((32..=44).contains(&tail.len()));
        assert!(tail.chars().all(|c| c.is_ascii_alphanumeric() && !"0OIl".contains(c)));
        assert_eq!(bs58::decode(tail).into_vec().unwrap().len(), 32);
    }
}
