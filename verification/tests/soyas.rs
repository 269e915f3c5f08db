use landingbench::config::{Endpoint, EndpointKind};
use landingbench::soyas::{
    client_identity, connect_key, connection_settings, delivery_step, Delivery, MissingKey,
};

const KEY: &str =
    "49W385L4rePHy6PAaQUovbD2aacgN4HsKXSMeUzRg4fmwXszN91JuMFrQRj3vMDpZuRF3ZknQBuRBoWQJEfXstMw";

fn unhex(text: &str) -> Vec<u8> {
    (0..text.len() / 2).map(|i| u8::from_str_radix(&text[2 * i..2 * i + 2], 16).unwrap()).collect()
}

fn endpoint(kind: EndpointKind, api_key: Option<&str>) -> Endpoint {
    Endpoint {
        name: "quick".to_string(),
        url: "host:1".to_string(),
        kind,
        tip_lamports: None,
        tip_wallet: None,
        api_key: api_key.map(|k| k.to_string()),
    }
}

#[test]
fn api_key_gives_certificate_and_private_key() {
    let identity = client_identity(KEY).unwrap();
    assert_eq!(identity.certificate.len(), 249);
    assert_eq!(
        identity.certificate[100..132].to_vec(),
        unhex("d75a980182b10ab7d54bfed3c964073a0ee172f3daa62325af021a68f707511a")
    );
    assert_eq!(identity.certificate[..6].to_vec(), unhex("3081f63081a9"));
    assert_eq!(identity.certificate[41..52].to_vec(), b"Solana node".to_vec());
    assert_eq!(identity.certificate[152..161].to_vec(), b"localhost".to_vec());
    assert_eq!(identity.certificate[185..].to_vec(), vec![0xff; 64]);
    assert_eq!(
        identity.private_key,
        unhex("302e020100300506032b6570042204209d61b19deffd5a60ba844af492ec2cc44449c5697b326919703bac031cae7f60")
    );
}

#[test]
fn api_keys_that_are_no_key_pair_give_nothing() {
    assert!(client_identity("").is_none());
    assert!(client_identity("0OIl").is_none());
    assert!(client_identity(&format!(" {}", KEY)).is_none());
    assert!(client_identity(&KEY[1..]).is_none());
    assert!(client_identity(
        "BUguQsv2ZuHus54HAFzjdJHzZBkygAjKhEeYwSG19tUfUyvvz3worsdQCdAXDNjakJHioSiyxhFiDJrm8XpSXRA"
    )
    .is_none());
}

#[test]
fn only_soyas_endpoints_are_connected_to() {
    assert!(matches!(connect_key(&endpoint(EndpointKind::Rpc, Some("k"))), Ok(None)));
    assert!(matches!(connect_key(&endpoint(EndpointKind::Custom, None)), Ok(None)));
    assert_eq!(
        connect_key(&endpoint(EndpointKind::Soyas, Some("k"))).ok().unwrap(),
        Some(&"k".to_string())
    );
    let missing: MissingKey = connect_key(&endpoint(EndpointKind::Soyas, None)).err().unwrap();
    assert_eq!(missing.message(), "Soyas endpoint quick requires api_key");
}

#[test]
fn connection_has_its_settings() {
    let settings = connection_settings();
    assert_eq!(settings.alpn_protocols, vec![b"solana-tpu".to_vec()]);
    assert_eq!(settings.server_name, "soyas-landing");
    assert_eq!(settings.local_address, "0.0.0.0:0");
    assert_eq!(settings.keep_alive_secs, 25);
    assert_eq!(settings.max_idle_secs, 30);
}

#[test]
fn delivery_is_tried_twice_at_most() {
    for first in [false, true] {
        for again in [false, true] {
            for second in [false, true] {
                let mut delivery = Delivery::FirstAttempt;
                for ok in [first, again, second] {
                    delivery = delivery_step(delivery, ok);
                }
                let sent = first || (again && second);
                assert_eq!(delivery, if sent { Delivery::Sent } else { Delivery::Failed });
            }
        }
    }
    assert_eq!(delivery_step(Delivery::FirstAttempt, false), Delivery::Reconnect);
    assert_eq!(delivery_step(Delivery::Reconnect, true), Delivery::SecondAttempt);
}
