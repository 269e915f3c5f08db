//! Soyas endpoints: the identity shown to them, the settings of the connection, and when a failed
//! send is tried again.

use crate::codec::base58_decode;
use crate::config::{Endpoint, EndpointKind};
use crate::keys::keypair_from_bytes;
use solana_keypair::Keypair;
use solana_tls_utils::new_dummy_x509_certificate;
use vstd::prelude::*;
use vstd::string::*;

verus! {

/// Calls `Keypair::from_base58_string` and `to_bytes`. Claimed is that a key pair in Base58 gives the
/// bytes that the text stands for. It panics on any other text.
#[verifier::external_body]
fn keypair_from_base58(text: &str) -> (keypair: [u8; 64])
    requires
        crate::codec::base58_decoded(text@) matches Some(b) && crate::keys::keypair_accepted(b),
    ensures
        crate::codec::base58_decoded(text@) == Some(keypair@),
{
    Keypair::from_base58_string(text).to_bytes()
}

/// What stands before the public key in the certificate that a key pair makes for itself: an X.509
/// certificate of `Solana node`, valid from 1970 to 4096, for an Ed25519 key.
pub open spec fn certificate_head() -> Seq<u8> {
    seq![
        0x30u8, 0x81, 0xf6, 0x30, 0x81, 0xa9, 0xa0, 0x03, 0x02, 0x01, 0x02, 0x02, 0x08, 0x01,
        0x01, 0x01, 0x01, 0x01, 0x01, 0x01, 0x01, 0x30, 0x05, 0x06, 0x03, 0x2b, 0x65, 0x70, 0x30,
        0x16, 0x31, 0x14, 0x30, 0x12, 0x06, 0x03, 0x55, 0x04, 0x03, 0x0c, 0x0b, 0x53, 0x6f, 0x6c,
        0x61, 0x6e, 0x61, 0x20, 0x6e, 0x6f, 0x64, 0x65, 0x30, 0x20, 0x17, 0x0d, 0x37, 0x30, 0x30,
        0x31, 0x30, 0x31, 0x30, 0x30, 0x30, 0x30, 0x30, 0x30, 0x5a, 0x18, 0x0f, 0x34, 0x30, 0x39,
        0x36, 0x30, 0x31, 0x30, 0x31, 0x30, 0x30, 0x30, 0x30, 0x30, 0x30, 0x5a, 0x30, 0x00, 0x30,
        0x2a, 0x30, 0x05, 0x06, 0x03, 0x2b, 0x65, 0x70, 0x03, 0x21, 0x00,
    ]
}

/// What stands behind the public key in that certificate: the name `localhost`, and a signature that
/// is none.
pub open spec fn certificate_end() -> Seq<u8> {
    seq![
        0xa3u8, 0x29, 0x30, 0x27, 0x30, 0x17, 0x06, 0x03, 0x55, 0x1d, 0x11, 0x01, 0x01, 0xff,
        0x04, 0x0d, 0x30, 0x0b, 0x82, 0x09, 0x6c, 0x6f, 0x63, 0x61, 0x6c, 0x68, 0x6f, 0x73, 0x74,
        0x30, 0x0c, 0x06, 0x03, 0x55, 0x1d, 0x13, 0x01, 0x01, 0xff, 0x04, 0x02, 0x30, 0x00, 0x30,
        0x05, 0x06, 0x03, 0x2b, 0x65, 0x70, 0x03, 0x41, 0x00,
    ] + Seq::new(64, |i: int| 0xffu8)
}

/// The certificate that a key pair makes for itself.
pub open spec fn dummy_certificate(keypair: Seq<u8>) -> Seq<u8> {
    certificate_head() + keypair.subrange(32, 64) + certificate_end()
}

/// What stands before the secret key in a PKCS #8 document that holds an Ed25519 key.
pub open spec fn pkcs8_prefix() -> Seq<u8> {
    seq![0x30u8, 0x2e, 2, 1, 0, 0x30, 5, 6, 3, 0x2b, 0x65, 0x70, 4, 0x22, 4, 0x20]
}

/// Calls `new_dummy_x509_certificate` of `solana_tls_utils`. Claimed is the whole certificate, and
/// that the private key is the secret key as a PKCS #8 document.
#[verifier::external_body]
fn certify(keypair: &[u8; 64]) -> (identity: ClientIdentity)
    requires
        crate::keys::keypair_accepted(keypair@),
    ensures
        identity.certificate@ == dummy_certificate(keypair@),
        identity.private_key@ == pkcs8_prefix() + keypair@.subrange(0, 32),
{
    let keypair = Keypair::try_from(keypair.as_slice()).unwrap();
    let (certificate, key) = new_dummy_x509_certificate(&keypair);
    ClientIdentity {
        certificate: certificate.as_ref().to_vec(),
        private_key: key.secret_der().to_vec(),
    }
}

/// The identity shown to a Soyas endpoint: a certificate, and the private key that belongs to it.
#[derive(Debug, Clone)]
pub struct ClientIdentity {
    pub certificate: Vec<u8>,
    pub private_key: Vec<u8>,
}

/// The key pair that an API key stands for, if it stands for one.
pub open spec fn api_keypair(api_key: Seq<char>) -> Option<Seq<u8>> {
    match crate::codec::base58_decoded(api_key) {
        Some(bytes) => if crate::keys::keypair_accepted(bytes) {
            Some(bytes)
        } else {
            None
        },
        None => None,
    }
}

/// The identity that an API key gives: it is a key pair in Base58.
pub fn client_identity(api_key: &str) -> (identity: Option<ClientIdentity>)
    ensures
        match identity {
            Some(id) => {
                &&& api_keypair(api_key@) matches Some(keypair)
                &&& id.certificate@ == dummy_certificate(keypair)
                &&& id.private_key@ == pkcs8_prefix() + keypair.subrange(0, 32)
            },
            None => api_keypair(api_key@) is None,
        },
{
    let bytes = match base58_decode(api_key) {
        Ok(bytes) => bytes,
        Err(_) => {
            return None;
        },
    };
    if keypair_from_bytes(bytes.as_slice()).is_err() {
        return None;
    }
    let keypair = keypair_from_base58(api_key);
    Some(certify(&keypair))
}

/// A Soyas endpoint has no API key.
#[derive(Debug, Clone)]
pub struct MissingKey {
    pub name: String,
}

impl MissingKey {
    /// The message that reports the fault.
    pub fn message(&self) -> (text: String)
        ensures
            text@ == "Soyas endpoint "@ + self.name@ + " requires api_key"@,
    {
        let mut text = "Soyas endpoint ".to_owned();
        text.append(self.name.as_str());
        text.append(" requires api_key");
        text
    }
}

/// The API key to connect to an endpoint with, if it is connected to at all: only Soyas endpoints
/// are.
pub fn connect_key(endpoint: &Endpoint) -> (key: Result<Option<&String>, MissingKey>)
    ensures
        match key {
            Ok(Some(k)) => endpoint.kind == EndpointKind::Soyas && endpoint.api_key == Some(*k),
            Ok(None) => endpoint.kind != EndpointKind::Soyas,
            Err(missing) => {
                &&& endpoint.kind == EndpointKind::Soyas
                &&& endpoint.api_key is None
                &&& missing.name@ == endpoint.name@
            },
        },
{
    if endpoint.kind != EndpointKind::Soyas {
        return Ok(None);
    }
    match &endpoint.api_key {
        Some(key) => Ok(Some(key)),
        None => Err(MissingKey { name: endpoint.name.clone() }),
    }
}

/// The settings of a connection to a Soyas endpoint.
#[derive(Debug, Clone)]
pub struct ConnectionSettings {
    /// The application protocols to offer.
    pub alpn_protocols: Vec<Vec<u8>>,
    /// The name to ask the server for.
    pub server_name: &'static str,
    /// The local address to connect from.
    pub local_address: &'static str,
    /// How often a sign of life is sent.
    pub keep_alive_secs: u64,
    /// How long the connection may stay silent.
    pub max_idle_secs: u64,
}

/// The settings of a connection to a Soyas endpoint. Signs of life come before the connection would
/// be given up as idle.
pub fn connection_settings() -> (settings: ConnectionSettings)
    ensures
        settings.alpn_protocols@.len() == 1,
        settings.alpn_protocols@[0]@ == vstd::utf8::encode_utf8("solana-tpu"@),
        settings.server_name@ == "soyas-landing"@,
        settings.local_address@ == "0.0.0.0:0"@,
        settings.keep_alive_secs == 25,
        settings.max_idle_secs == 30,
{
    let mut alpn_protocols: Vec<Vec<u8>> = Vec::new();
    alpn_protocols.push("solana-tpu".as_bytes_vec());
    ConnectionSettings {
        alpn_protocols,
        server_name: "soyas-landing",
        local_address: "0.0.0.0:0",
        keep_alive_secs: 25,
        max_idle_secs: 30,
    }
}

/// The steps of sending a transaction over a connection.
#[derive(Debug, Clone, Copy, PartialEq, Eq, Structural)]
pub enum Delivery {
    /// Send over the connection there is.
    FirstAttempt,
    /// Connect again.
    Reconnect,
    /// Send over the new connection.
    SecondAttempt,
    /// The transaction was sent.
    Sent,
    /// The transaction was not sent.
    Failed,
}

/// The step that follows another, which succeeded or not.
pub open spec fn delivery_after(delivery: Delivery, ok: bool) -> Delivery {
    match delivery {
        Delivery::FirstAttempt => if ok {
            Delivery::Sent
        } else {
            Delivery::Reconnect
        },
        Delivery::Reconnect => if ok {
            Delivery::SecondAttempt
        } else {
            Delivery::Failed
        },
        Delivery::SecondAttempt => if ok {
            Delivery::Sent
        } else {
            Delivery::Failed
        },
        Delivery::Sent => Delivery::Sent,
        Delivery::Failed => Delivery::Failed,
    }
}

/// The step that follows another, which succeeded or not: after a failed attempt the connection is
/// made anew, once, and used for a second attempt.
pub fn delivery_step(delivery: Delivery, ok: bool) -> (next: Delivery)
    ensures
        next == delivery_after(delivery, ok),
{
    match delivery {
        Delivery::FirstAttempt => if ok {
            Delivery::Sent
        } else {
            Delivery::Reconnect
        },
        Delivery::Reconnect => if ok {
            Delivery::SecondAttempt
        } else {
            Delivery::Failed
        },
        Delivery::SecondAttempt => if ok {
            Delivery::Sent
        } else {
            Delivery::Failed
        },
        Delivery::Sent => Delivery::Sent,
        Delivery::Failed => Delivery::Failed,
    }
}

/// Where a delivery stands after steps with these outcomes.
pub open spec fn delivered(outcomes: Seq<bool>) -> Delivery
    decreases outcomes.len(),
{
    if outcomes.len() == 0 {
        Delivery::FirstAttempt
    } else {
        delivery_after(delivered(outcomes.drop_last()), outcomes.last())
    }
}

/// A delivery is over after three steps at most. It succeeds exactly where the first attempt does,
/// or the new connection and the second attempt both do.
pub proof fn delivery_ends(outcomes: Seq<bool>)
    requires
        outcomes.len() >= 3,
    ensures
        delivered(outcomes) == if outcomes[0] || (outcomes[1] && outcomes[2]) {
            Delivery::Sent
        } else {
            Delivery::Failed
        },
    decreases outcomes.len(),
{
    if outcomes.len() > 3 {
        delivery_ends(outcomes.drop_last());
    } else {
        reveal_with_fuel(delivered, 4);
        let two = outcomes.drop_last();
        let one = two.drop_last();
        assert(one.drop_last() =~= Seq::<bool>::empty());
    }
}

/// What follows each step of a delivery.
pub proof fn deliveries_go_on(ok: bool)
    ensures
        delivery_after(Delivery::FirstAttempt, true) == Delivery::Sent,
        delivery_after(Delivery::FirstAttempt, false) == Delivery::Reconnect,
        delivery_after(Delivery::Reconnect, true) == Delivery::SecondAttempt,
        delivery_after(Delivery::Reconnect, false) == Delivery::Failed,
        delivery_after(Delivery::SecondAttempt, true) == Delivery::Sent,
        delivery_after(Delivery::SecondAttempt, false) == Delivery::Failed,
        delivery_after(Delivery::Sent, ok) == Delivery::Sent,
        delivery_after(Delivery::Failed, ok) == Delivery::Failed,
{
}

/// An API key gives an identity exactly where it is Base58, just as it stands, and stands for a key
/// pair; the identity's certificate holds the public half of the pair.
pub proof fn api_keys_are_key_pairs(api_key: Seq<char>)
    ensures
        match crate::codec::base58_outcome(api_key) {
            Err(_) => api_keypair(api_key) is None,
            Ok(bytes) => api_keypair(api_key) == if crate::keys::keypair_refusal(bytes) is None {
                Some(bytes)
            } else {
                None
            },
        },
        api_keypair(api_key) matches Some(keypair) ==> (keypair.len() == 64 ==> {
            &&& dummy_certificate(keypair).len() == 249
            &&& dummy_certificate(keypair).subrange(100, 132) == keypair.subrange(32, 64)
        }),
{
    if let Some(keypair) = api_keypair(api_key) {
        if keypair.len() == 64 {
            assert(dummy_certificate(keypair).subrange(100, 132) =~= keypair.subrange(32, 64));
        }
    }
}

} // verus!
