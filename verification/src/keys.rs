//! The key that transactions are signed with, and signing.

use crate::chain::{Address, Instruction, InstructionModel};
use crate::codec::base58_decode;
use crate::text::trim;
use solana_instruction::{AccountMeta, Instruction as SolanaInstruction};
use solana_keypair::Keypair;
use solana_message::Message;
use solana_transaction::Transaction;
use vstd::prelude::*;
use vstd::string::*;

verus! {

/// What keeps some bytes from being an Ed25519 key pair, if anything does.
pub uninterp spec fn keypair_refusal(bytes: Seq<u8>) -> Option<Seq<char>>;

/// Whether some bytes are an Ed25519 key pair: a secret key and the public key that belongs to it.
pub open spec fn keypair_accepted(bytes: Seq<u8>) -> bool {
    keypair_refusal(bytes) is None
}

/// Calls `Keypair::try_from` and `to_bytes`, and takes the text of an error and of its source.
/// Claimed is that whether bytes are a key pair, and the error where they are none, is a function of
/// the bytes, and that a key pair is the 64 bytes it was made of.
#[verifier::external_body]
pub(crate) fn keypair_from_bytes(bytes: &[u8]) -> (keypair: Result<[u8; 64], String>)
    ensures
        match keypair {
            Ok(k) => keypair_refusal(bytes@) is None && k@ == bytes@,
            Err(cause) => keypair_refusal(bytes@) == Some(cause@),
        },
{
    match Keypair::try_from(bytes) {
        Ok(keypair) => Ok(keypair.to_bytes()),
        Err(err) => match std::error::Error::source(&err) {
            Some(source) => Err(format!("{err}: {source}")),
            None => Err(err.to_string()),
        },
    }
}

/// A key pair: 32 bytes of secret key, then 32 bytes of public key.
pub struct SigningKey {
    bytes: [u8; 64],
}

impl View for SigningKey {
    type V = Seq<u8>;

    closed spec fn view(&self) -> Seq<u8> {
        self.bytes@
    }
}

impl SigningKey {
    #[verifier::type_invariant]
    spec fn valid(self) -> bool {
        keypair_accepted(self.bytes@)
    }

    /// The public half of the pair, as bytes.
    pub open spec fn public(&self) -> Seq<u8> {
        self@.subrange(32, 64)
    }

    /// A key pair is one that was accepted, and 64 bytes long.
    pub fn from_bytes(bytes: &[u8]) -> (key: Result<SigningKey, String>)
        ensures
            match key {
                Ok(k) => keypair_accepted(bytes@) && k@ == bytes@ && k@.len() == 64,
                Err(cause) => keypair_refusal(bytes@) == Some(cause@),
            },
    {
        match keypair_from_bytes(bytes) {
            Ok(k) => {
                assert(k@.len() == 64);
                Ok(SigningKey { bytes: k })
            },
            Err(cause) => Err(cause),
        }
    }

    /// The address of the pair.
    pub fn pubkey(&self) -> (address: Address)
        ensures
            address@ == self.public(),
            forall|i: int| 0 <= i < 32 ==> #[trigger] address.bytes@[i] == self@[32 + i],
    {
        let mut bytes: [u8; 32] = [0; 32];
        let mut i: usize = 0;
        while i < 32
            invariant
                i <= 32,
                forall|j: int| 0 <= j < i ==> bytes@[j] == self.bytes@[32 + j],
            decreases 32 - i,
        {
            bytes[i] = self.bytes[32 + i];
            i += 1;
        }
        assert(bytes@ =~= self.public());
        Address { bytes }
    }
}

/// Why a configured key cannot be used.
#[derive(Debug)]
pub enum KeyFault {
    /// The text is not Base58.
    Decode { cause: String },
    /// The bytes are no key pair.
    Invalid { cause: String },
}

/// Why a configured key cannot be used.
pub enum KeyFaultModel {
    Decode { cause: Seq<char> },
    Invalid { cause: Seq<char> },
}

impl View for KeyFault {
    type V = KeyFaultModel;

    open spec fn view(&self) -> KeyFaultModel {
        match self {
            KeyFault::Decode { cause } => KeyFaultModel::Decode { cause: cause@ },
            KeyFault::Invalid { cause } => KeyFaultModel::Invalid { cause: cause@ },
        }
    }
}

impl KeyFault {
    /// The message that reports the fault.
    pub open spec fn text(self) -> Seq<char> {
        match self {
            KeyFault::Decode { .. } => "Failed to decode private key"@,
            KeyFault::Invalid { .. } => "Invalid private key bytes"@,
        }
    }

    /// The message that reports the fault.
    pub fn message(&self) -> (text: &'static str)
        ensures
            text@ == self.text(),
    {
        match self {
            KeyFault::Decode { .. } => "Failed to decode private key",
            KeyFault::Invalid { .. } => "Invalid private key bytes",
        }
    }

    /// What lies behind the fault.
    pub open spec fn reason(self) -> Seq<char> {
        match self {
            KeyFault::Decode { cause } => cause@,
            KeyFault::Invalid { cause } => cause@,
        }
    }

    /// What lies behind the fault.
    pub fn cause(&self) -> (text: &str)
        ensures
            text@ == self.reason(),
    {
        match self {
            KeyFault::Decode { cause } => cause.as_str(),
            KeyFault::Invalid { cause } => cause.as_str(),
        }
    }
}

/// The key pair that came of decoding a text, or why there is none.
pub open spec fn key_from(decoded: Result<Seq<u8>, Seq<char>>) -> Result<Seq<u8>, KeyFaultModel> {
    match decoded {
        Ok(bytes) => match keypair_refusal(bytes) {
            None => Ok(bytes),
            Some(cause) => Err(KeyFaultModel::Invalid { cause }),
        },
        Err(cause) => Err(KeyFaultModel::Decode { cause }),
    }
}

/// Makes a key pair of what came of decoding a text.
pub fn key_from_decoded(decoded: Result<Vec<u8>, String>) -> (key: Result<SigningKey, KeyFault>)
    ensures
        ({
            let expected = key_from(
                match decoded {
                    Ok(bytes) => Ok(bytes@),
                    Err(cause) => Err(cause@),
                },
            );
            match key {
                Ok(k) => expected == Ok::<Seq<u8>, KeyFaultModel>(k@) && k@.len() == 64,
                Err(fault) => expected == Err::<Seq<u8>, KeyFaultModel>(fault@),
            }
        }),
{
    match decoded {
        Ok(bytes) => match SigningKey::from_bytes(bytes.as_slice()) {
            Ok(key) => Ok(key),
            Err(cause) => Err(KeyFault::Invalid { cause }),
        },
        Err(cause) => Err(KeyFault::Decode { cause }),
    }
}

/// The key pair that a configured text stands for, in Base58, white space around it aside, or why
/// it stands for none.
pub open spec fn key_of(text: Seq<char>) -> Result<Seq<u8>, KeyFaultModel> {
    key_from(crate::codec::base58_outcome(crate::text::trimmed(text)))
}

/// The key pair that a configured text stands for, in Base58, white space around it aside.
pub fn decode_private_key(key: &str) -> (decoded: Result<SigningKey, KeyFault>)
    ensures
        match decoded {
            Ok(k) => key_of(key@) == Ok::<Seq<u8>, KeyFaultModel>(k@) && k@.len() == 64,
            Err(fault) => key_of(key@) == Err::<Seq<u8>, KeyFaultModel>(fault@),
        },
{
    key_from_decoded(base58_decode(trim(key)))
}

/// Decoding a key undoes encoding it: the Base58 text of a key pair gives the pair back, whatever
/// white space stands around it.
pub proof fn key_text_reads_back(
    before: Seq<char>,
    text: Seq<char>,
    after: Seq<char>,
    keypair: Seq<u8>,
)
    requires
        crate::text::all_white_space(before),
        crate::text::all_white_space(after),
        crate::codec::stands_for(text, keypair),
        keypair_accepted(keypair),
    ensures
        key_of(before + text + after) == Ok::<Seq<u8>, KeyFaultModel>(keypair),
{
    if text.len() > 0 {
        assert(crate::codec::is_base58(text[0]));
        assert(crate::codec::is_base58(text[text.len() - 1]));
    }
    crate::text::trimming_undoes_padding(before, text, after);
}

/// A bound on the number of addresses that a message over some instructions lists: the payer, each
/// program and each account.
pub open spec fn address_bound(instructions: Seq<InstructionModel>) -> nat
    decreases instructions.len(),
{
    if instructions.len() == 0 {
        1
    } else {
        address_bound(instructions.drop_last()) + 1 + instructions.last().accounts.len()
    }
}

/// Whether instructions fit into a message that one key signs: nobody else has to sign, the
/// addresses can be numbered by a byte, and the lengths of data fit into 16 bits.
pub open spec fn signable(instructions: Seq<InstructionModel>, authority: Seq<u8>) -> bool {
    &&& crate::chain::signed_only_by(instructions, authority)
    &&& address_bound(instructions) <= 255
    &&& forall|i: int| 0 <= i < instructions.len() ==> (#[trigger] instructions[i]).data.len() <= 65535
}

/// A signed transaction: its signature, and the bytes that are sent.
#[derive(Debug, Clone)]
pub struct SignedTransaction {
    pub signature: Vec<u8>,
    pub wire: Vec<u8>,
}

/// The signature and the bytes of a transaction that a key pair pays for and signs.
pub uninterp spec fn signed_transaction(
    keypair: Seq<u8>,
    instructions: Seq<InstructionModel>,
    blockhash: Seq<u8>,
) -> (Seq<u8>, Seq<u8>);

/// Calls `Message::new`, `Transaction::new` and `bincode::serialize`. Claimed is that signature and
/// bytes are a function of the key pair, the instructions and the block hash, and that the bytes
/// start with the number of signatures, which is one, and the signature.
#[verifier::external_body]
fn sign(
    keypair: &[u8; 64],
    payer: &Address,
    instructions: &Vec<Instruction>,
    blockhash: &[u8; 32],
) -> (signed: SignedTransaction)
    requires
        keypair_accepted(keypair@),
        payer@ == keypair@.subrange(32, 64),
        signable(crate::chain::models(instructions@), payer@),
    ensures
        (signed.signature@, signed.wire@) == signed_transaction(
            keypair@,
            crate::chain::models(instructions@),
            blockhash@,
        ),
        signed.signature@.len() == 64,
        signed.wire@.len() > 65,
        signed.wire@[0] == 1,
        signed.wire@.subrange(1, 65) == signed.signature@,
{
    let instructions: Vec<_> = instructions.iter().map(|ix| SolanaInstruction {
        program_id: ix.program_id.bytes.into(),
        accounts: ix.accounts.iter().map(|m| AccountMeta {
            pubkey: m.pubkey.bytes.into(),
            is_signer: m.is_signer,
            is_writable: m.is_writable,
        }).collect(),
        data: ix.data.clone(),
    }).collect();
    let keypair = Keypair::try_from(keypair.as_slice()).unwrap();
    let message = Message::new(&instructions, Some(&payer.bytes.into()));
    let tx = Transaction::new(&[&keypair], message, (*blockhash).into());
    let signature = tx.signatures[0].as_ref().to_vec();
    SignedTransaction { signature, wire: bincode::serialize(&tx).unwrap() }
}

/// Signs a transaction that the key pair pays for.
pub fn sign_transaction(
    key: &SigningKey,
    instructions: &Vec<Instruction>,
    blockhash: &[u8; 32],
) -> (signed: SignedTransaction)
    requires
        signable(crate::chain::models(instructions@), key.public()),
    ensures
        (signed.signature@, signed.wire@) == signed_transaction(
            key@,
            crate::chain::models(instructions@),
            blockhash@,
        ),
        signed.signature@.len() == 64,
        signed.wire@.len() > 65,
        signed.wire@[0] == 1,
        signed.wire@.subrange(1, 65) == signed.signature@,
{
    proof {
        use_type_invariant(key);
    }
    sign(&key.bytes, &key.pubkey(), instructions, blockhash)
}

proof fn lemma_little_endian_len(n: nat, width: nat)
    ensures
        crate::chain::little_endian(n, width).len() == width,
    decreases width,
{
    if width > 0 {
        lemma_little_endian_len(n / 256, (width - 1) as nat);
    }
}

proof fn lemma_address_bound(instructions: Seq<InstructionModel>)
    requires
        forall|i: int| 0 <= i < instructions.len() ==> (#[trigger] instructions[i]).accounts.len() <= 3,
    ensures
        address_bound(instructions) <= 1 + 4 * instructions.len(),
    decreases instructions.len(),
{
    if instructions.len() > 0 {
        let front = instructions.drop_last();
        assert forall|i: int| 0 <= i < front.len() implies (#[trigger] front[i]).accounts.len()
            <= 3 by {
            assert(front[i] == instructions[i]);
        }
        lemma_address_bound(front);
    }
}

/// A benchmark transaction can be signed as soon as the length of its memo fits into 16 bits.
pub proof fn transaction_is_signable(
    nonce: Seq<u8>,
    authority: Seq<u8>,
    prio_fee: Option<u64>,
    cu_limit: u32,
    memo_program: Seq<u8>,
    memo: Seq<u8>,
    tip: Option<(u64, Seq<u8>)>,
)
    ensures
        signable(
            crate::chain::transaction_models(
                nonce,
                authority,
                prio_fee,
                cu_limit,
                memo_program,
                memo,
                tip,
            ),
            authority,
        ) <==> memo.len() <= 65535,
{
    let all = crate::chain::transaction_models(
        nonce,
        authority,
        prio_fee,
        cu_limit,
        memo_program,
        memo,
        tip,
    );
    crate::chain::transaction_shape(
        nonce,
        authority,
        prio_fee,
        cu_limit,
        memo_program,
        memo,
        tip,
    );
    lemma_address_bound(all);
    lemma_little_endian_len(4, 4);
    lemma_little_endian_len(2, 4);
    lemma_little_endian_len(cu_limit as nat, 4);
    if let Some(price) = prio_fee {
        lemma_little_endian_len(price as nat, 8);
    }
    if let Some((lamports, wallet)) = tip {
        lemma_little_endian_len(lamports as nat, 8);
    }
}

/// A configured key is refused exactly where what stands between its white space is not Base58, or
/// stands for bytes that are no key pair, each time with what the crate in question says; any other
/// is the bytes it stands for.
pub proof fn keys_are_judged(before: Seq<char>, text: Seq<char>, after: Seq<char>)
    requires
        crate::text::all_white_space(before),
        crate::text::all_white_space(after),
        text.len() > 0 ==> !crate::text::is_white_space(text[0]) && !crate::text::is_white_space(
            text.last(),
        ),
    ensures
        ({
            let key = key_of(before + text + after);
            match crate::codec::base58_outcome(text) {
                Err(complaint) => key == Err::<Seq<u8>, KeyFaultModel>(
                    KeyFaultModel::Decode { cause: complaint },
                ),
                Ok(bytes) => match keypair_refusal(bytes) {
                    Some(complaint) => key == Err::<Seq<u8>, KeyFaultModel>(
                        KeyFaultModel::Invalid { cause: complaint },
                    ),
                    None => key == Ok::<Seq<u8>, KeyFaultModel>(bytes),
                },
            }
        }),
{
    crate::text::trimming_undoes_padding(before, text, after);
}

/// What is said of each fault, and what lies behind it.
pub proof fn texts_of_key_faults(cause: String)
    ensures
        (KeyFault::Decode { cause }).text() == "Failed to decode private key"@,
        (KeyFault::Invalid { cause }).text() == "Invalid private key bytes"@,
        (KeyFault::Decode { cause }).reason() == cause@,
        (KeyFault::Invalid { cause }).reason() == cause@,
        (KeyFault::Decode { cause })@ == (KeyFaultModel::Decode { cause: cause@ }),
        (KeyFault::Invalid { cause })@ == (KeyFaultModel::Invalid { cause: cause@ }),
{
}

} // verus!
