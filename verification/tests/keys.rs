use landingbench::chain::{assemble_instructions, memo_program, Address};
use landingbench::keys::{
    decode_private_key, key_from_decoded, sign_transaction, KeyFault, SigningKey,
};

const KEY: &str =
    "49W385L4rePHy6PAaQUovbD2aacgN4HsKXSMeUzRg4fmwXszN91JuMFrQRj3vMDpZuRF3ZknQBuRBoWQJEfXstMw";
const WIRE: &str = "01e127a133999c13bf0f6497a141a0dfe4388de22abb4ed1e8aff535c4d650d9e72d94defcc70f15abbe6a9efd7e43310c0f736aa60627863a7d748366a811020301000305d75a980182b10ab7d54bfed3c964073a0ee172f3daa62325af021a68f707511a0707070707070707070707070707070707070707070707070707070707070707000000000000000000000000000000000000000000000000000000000000000006a7d517192c568ee08a845f73d29788cf035c3145b21ab344d8062ea9400000d8780381bb5eff3b7a68fe68ba47aa021612c25412aa22f09e45fd81eb95fc77050505050505050505050505050505050505050505050505050505050505050502020301030004040000000400317270632d617c797a4b4e78775558746946657055544b4471346a596f74453272435431766d44713152516572583873744a";

fn unhex(text: &str) -> Vec<u8> {
    (0..text.len() / 2).map(|i| u8::from_str_radix(&text[2 * i..2 * i + 2], 16).unwrap()).collect()
}

fn fault(key: &str) -> Option<KeyFault> {
    decode_private_key(key).err()
}

fn not_base58(key: &str) -> bool {
    matches!(fault(key), Some(KeyFault::Decode { .. }))
}

fn no_key_pair(key: &str) -> bool {
    matches!(fault(key), Some(KeyFault::Invalid { .. }))
}

#[test]
fn key_is_decoded_and_gives_its_address() {
    let key = decode_private_key(KEY).ok().unwrap();
    let public = unhex("d75a980182b10ab7d54bfed3c964073a0ee172f3daa62325af021a68f707511a");
    assert_eq!(key.pubkey().bytes.to_vec(), public);
}

#[test]
fn white_space_around_a_key_is_ignored() {
    assert!(fault(&format!(" \n{}\t", KEY)).is_none());
}

#[test]
fn texts_that_are_no_base58_are_refused() {
    assert!(not_base58("0OIl"));
    assert!(not_base58("pk goes here"));
    let refused = fault("12é").unwrap();
    assert_eq!(refused.message(), "Failed to decode private key");
    assert_eq!(refused.cause(), "provided string contained non-ascii character starting at byte 2");
    assert_eq!(
        fault("a0").unwrap().cause(),
        "provided string contained invalid character '0' at byte 1"
    );
}

#[test]
fn bytes_that_are_no_key_pair_are_refused() {
    assert!(no_key_pair("pkgoeshere"));
    assert!(no_key_pair(""));
    assert!(no_key_pair(
        "BUguQsv2ZuHus54HAFzjdJHzZBkygAjKhEeYwSG19tUfUyvvz3worsdQCdAXDNjakJHioSiyxhFiDJrm8XpSXRA"
    ));
    let refused = fault("pkgoeshere").unwrap();
    assert_eq!(refused.message(), "Invalid private key bytes");
    assert_eq!(refused.cause(), "signature error: candidate keypair byte array is too short");
}

#[test]
fn decoded_bytes_are_judged() {
    let refused = key_from_decoded(Err("odd".to_string())).err().unwrap();
    assert!(matches!(refused, KeyFault::Decode { .. }));
    assert_eq!(refused.cause(), "odd");
    assert!(matches!(key_from_decoded(Ok(vec![1; 64])).err(), Some(KeyFault::Invalid { .. })));
    let mut pair = unhex("9d61b19deffd5a60ba844af492ec2cc44449c5697b326919703bac031cae7f60");
    pair.extend(unhex("d75a980182b10ab7d54bfed3c964073a0ee172f3daa62325af021a68f707511a"));
    assert!(SigningKey::from_bytes(&pair).is_ok());
    assert!(key_from_decoded(Ok(pair.clone())).is_ok());
    pair.push(0);
    assert!(SigningKey::from_bytes(&pair).is_err());
}

#[test]
fn transaction_is_signed_and_serialised() {
    let key = decode_private_key(KEY).ok().unwrap();
    let instructions = assemble_instructions(
        &Address { bytes: [7; 32] },
        &key.pubkey(),
        None,
        1_000_000,
        &memo_program().unwrap(),
        b"rpc-a|yzKNxwUXtiFepUTKDq4jYotE2rCT1vmDq1RQerX8stJ".to_vec(),
        None,
    );
    let signed = sign_transaction(&key, &instructions, &[5; 32]);
    assert_eq!(signed.wire, unhex(WIRE));
    assert_eq!(signed.signature, unhex(WIRE)[1..65].to_vec());
}

#[test]
fn key_text_reads_back_whatever_stands_around_it() {
    let plain = decode_private_key(KEY).ok().unwrap().pubkey();
    for (before, after) in [("", " "), ("\u{3000}\u{a0}", ""), ("\r\n \t", "\u{2028}\n")] {
        let padded = format!("{}{}{}", before, KEY, after);
        assert_eq!(decode_private_key(&padded).ok().unwrap().pubkey(), plain);
    }
    assert!(not_base58(&format!("{} {}", &KEY[..10], &KEY[10..])));
}
