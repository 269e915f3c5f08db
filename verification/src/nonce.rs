//! The durable nonce that the transactions of a round spend.

use crate::codec::{base58_encode, same_bytes};
use solana_account::Account;
use solana_nonce::state::State;
use solana_pubkey::Pubkey;
use solana_rpc_client_nonce_utils::nonblocking::{state_from_account, Error};
use vstd::prelude::*;
use vstd::string::*;

verus! {

/// What a nonce account holds.
#[derive(Debug, Clone, Copy)]
pub enum NonceState {
    Uninitialized,
    Initialized { blockhash: [u8; 32] },
}

/// What a nonce account holds.
pub enum NonceModel {
    Uninitialized,
    Initialized { blockhash: Seq<u8> },
}

impl View for NonceState {
    type V = NonceModel;

    open spec fn view(&self) -> NonceModel {
        match self {
            NonceState::Uninitialized => NonceModel::Uninitialized,
            NonceState::Initialized { blockhash } => NonceModel::Initialized {
                blockhash: blockhash@,
            },
        }
    }
}

/// Why no nonce can be read.
#[derive(Debug, Clone, Copy, PartialEq, Eq, Structural)]
pub enum NonceFault {
    /// There is no such account.
    NotFound,
    /// The account does not belong to the system program.
    Owner,
    /// The account is empty.
    Empty,
    /// The account holds something else.
    Data,
    /// The account was not made a nonce account yet.
    Uninitialized,
}

impl NonceFault {
    /// The message that reports the fault.
    pub open spec fn text(self) -> Seq<char> {
        match self {
            NonceFault::NotFound => "Nonce account not found"@,
            NonceFault::Owner => "Failed to parse nonce state"@,
            NonceFault::Empty => "Failed to parse nonce state"@,
            NonceFault::Data => "Failed to parse nonce state"@,
            NonceFault::Uninitialized => "Nonce account uninitialized"@,
        }
    }

    /// What lies behind the fault, where there is more to say.
    pub open spec fn reason(self) -> Option<Seq<char>> {
        match self {
            NonceFault::NotFound => None,
            NonceFault::Owner => Some("invalid account owner"@),
            NonceFault::Empty => Some("unexpected account data size"@),
            NonceFault::Data => Some("invalid account data"@),
            NonceFault::Uninitialized => Some("invalid state for requested operation"@),
        }
    }

    /// What lies behind the fault, where there is more to say.
    pub fn cause(&self) -> (text: Option<&'static str>)
        ensures
            match text {
                Some(t) => self.reason() == Some(t@),
                None => self.reason() is None,
            },
    {
        match self {
            NonceFault::NotFound => None,
            NonceFault::Owner => Some("invalid account owner"),
            NonceFault::Empty => Some("unexpected account data size"),
            NonceFault::Data => Some("invalid account data"),
            NonceFault::Uninitialized => Some("invalid state for requested operation"),
        }
    }

    /// The message that reports the fault.
    pub fn message(&self) -> (text: &'static str)
        ensures
            text@ == self.text(),
    {
        match self {
            NonceFault::NotFound => "Nonce account not found",
            NonceFault::Owner => "Failed to parse nonce state",
            NonceFault::Empty => "Failed to parse nonce state",
            NonceFault::Data => "Failed to parse nonce state",
            NonceFault::Uninitialized => "Nonce account uninitialized",
        }
    }
}

/// Whether a number of four bytes stands at a place of some data, the lowest byte first.
pub open spec fn tag_at(data: Seq<u8>, at: int, tag: nat) -> bool {
    data.subrange(at, at + 4) == crate::chain::little_endian(tag, 4)
}

/// What the data of a nonce account hold, if they are a nonce account's: a version, which is 0 or 1;
/// then 0 where the account was not initialized, or 1, the authority, the nonce and the fee. What
/// stands behind does not matter.
pub open spec fn nonce_state(data: Seq<u8>) -> Option<NonceModel> {
    if data.len() < 8 || !(tag_at(data, 0, 0) || tag_at(data, 0, 1)) {
        None
    } else if tag_at(data, 4, 0) {
        Some(NonceModel::Uninitialized)
    } else if tag_at(data, 4, 1) && data.len() >= 80 {
        Some(NonceModel::Initialized { blockhash: data.subrange(40, 72) })
    } else {
        None
    }
}

/// Calls `state_from_account` of `solana_rpc_client_nonce_utils`, which reads an account's owner and
/// data. Claimed is that it refuses an account that the system program does not own, then an empty
/// one, then one whose data have another layout, and what it reads of the rest.
#[verifier::external_body]
fn state_of(owner: &[u8; 32], data: &[u8]) -> (state: Result<NonceState, NonceFault>)
    ensures
        match state {
            Ok(s) => {
                &&& owner@ == crate::chain::system_program()
                &&& data@.len() > 0
                &&& nonce_state(data@) == Some(s@)
            },
            Err(fault) => fault == if owner@ != crate::chain::system_program() {
                NonceFault::Owner
            } else if data@.len() == 0 {
                NonceFault::Empty
            } else {
                NonceFault::Data
            } && (fault is Data ==> nonce_state(data@) is None),
        },
{
    let (data, owner) = (data.to_vec(), Pubkey::from(*owner));
    let account = Account { lamports: 0, data, owner, executable: false, rent_epoch: 0 };
    match state_from_account(&account) {
        Ok(State::Uninitialized) => Ok(NonceState::Uninitialized),
        Ok(State::Initialized(data)) => Ok(
            NonceState::Initialized { blockhash: data.blockhash().to_bytes() },
        ),
        Err(Error::InvalidAccountOwner) => Err(NonceFault::Owner),
        Err(Error::UnexpectedDataSize) => Err(NonceFault::Empty),
        Err(_) => Err(NonceFault::Data),
    }
}

/// An account as it was fetched.
#[derive(Debug, Clone)]
pub struct NonceAccount {
    pub owner: [u8; 32],
    pub data: Vec<u8>,
}

/// The nonce that a fetched account holds, or why none can be read of it.
pub open spec fn nonce_of(account: Option<NonceAccount>) -> Result<Seq<u8>, NonceFault> {
    match account {
        None => Err(NonceFault::NotFound),
        Some(account) => if account.owner@ != crate::chain::system_program() {
            Err(NonceFault::Owner)
        } else if account.data@.len() == 0 {
            Err(NonceFault::Empty)
        } else {
            match nonce_state(account.data@) {
                None => Err(NonceFault::Data),
                Some(NonceModel::Uninitialized) => Err(NonceFault::Uninitialized),
                Some(NonceModel::Initialized { blockhash }) => Ok(blockhash),
            }
        },
    }
}

/// The nonce in the state of an account, if it was initialized.
pub fn data_from_state(state: &NonceState) -> (blockhash: Result<[u8; 32], NonceFault>)
    ensures
        match blockhash {
            Ok(hash) => *state == (NonceState::Initialized { blockhash: hash }),
            Err(fault) => *state is Uninitialized && fault == NonceFault::Uninitialized,
        },
{
    match state {
        NonceState::Uninitialized => Err(NonceFault::Uninitialized),
        NonceState::Initialized { blockhash } => Ok(*blockhash),
    }
}

/// The nonce that a fetched account holds, or why none can be read of it.
pub fn read_nonce(account: &Option<NonceAccount>) -> (nonce: Result<[u8; 32], NonceFault>)
    ensures
        match nonce {
            Ok(hash) => nonce_of(*account) == Ok::<Seq<u8>, NonceFault>(hash@),
            Err(fault) => nonce_of(*account) == Err::<Seq<u8>, NonceFault>(fault),
        },
        nonce matches Ok(hash) ==> {
            &&& account is Some
            &&& account->0.data@.len() >= 80
            &&& hash@ == account->0.data@.subrange(40, 72)
        },
{
    proof {
        nonce_is_read_as_stored(*account);
    }
    match account {
        None => Err(NonceFault::NotFound),
        Some(account) => match state_of(&account.owner, account.data.as_slice()) {
            Ok(state) => data_from_state(&state),
            Err(fault) => Err(fault),
        },
    }
}

/// What to do after the nonce account was fetched.
#[derive(Debug, Clone, Copy)]
pub enum NonceStep {
    /// Go on with this nonce.
    Fresh { blockhash: [u8; 32] },
    /// Fetch the account again after a pause.
    Pause { ms: u64 },
    /// Give up: the nonce is still the one of the round before.
    Stale { blockhash: [u8; 32] },
    /// Give up: there is no nonce.
    Failed { fault: NonceFault },
}

/// How long to wait for a fresh nonce, in milliseconds: as configured, and no less than a tenth of
/// a second.
pub open spec fn patience_ms(wait_ms: u64) -> nat {
    if wait_ms < 100 {
        100
    } else {
        wait_ms as nat
    }
}

/// Whether a nonce is another than that of the round before.
pub open spec fn is_fresh(current: Seq<u8>, previous: Option<[u8; 32]>) -> bool {
    previous matches Some(p) ==> p@ != current
}

/// What to do with the nonce that was read, `elapsed` nanoseconds after the waiting began.
pub fn judge_nonce(
    current: [u8; 32],
    previous: Option<[u8; 32]>,
    elapsed: u64,
    wait_ms: u64,
) -> (step: NonceStep)
    ensures
        match step {
            NonceStep::Fresh { blockhash } => blockhash == current && is_fresh(current@, previous),
            NonceStep::Pause { ms } => {
                &&& ms == 100
                &&& !is_fresh(current@, previous)
                &&& elapsed < patience_ms(wait_ms) * 1_000_000
            },
            NonceStep::Stale { blockhash } => {
                &&& blockhash == current
                &&& !is_fresh(current@, previous)
                &&& elapsed >= patience_ms(wait_ms) * 1_000_000
            },
            NonceStep::Failed { .. } => false,
        },
        step is Fresh <==> (previous matches Some(p) ==> p@ != current@),
        step is Stale <==> previous is Some && previous->0@ == current@ && elapsed >= 100_000_000
            && elapsed >= wait_ms * 1_000_000,
{
    let fresh = match previous {
        Some(p) => !same_bytes(p.as_slice(), current.as_slice()),
        None => true,
    };
    if fresh {
        return NonceStep::Fresh { blockhash: current };
    }
    let patience: u128 = if wait_ms < 100 {
        100
    } else {
        wait_ms as u128
    };
    if elapsed as u128 >= patience * 1_000_000 {
        NonceStep::Stale { blockhash: current }
    } else {
        NonceStep::Pause { ms: 100 }
    }
}

/// What to do after the nonce account was fetched, `elapsed` nanoseconds after the waiting began.
pub fn nonce_step(
    account: &Option<NonceAccount>,
    previous: Option<[u8; 32]>,
    elapsed: u64,
    wait_ms: u64,
) -> (step: NonceStep)
    ensures
        match step {
            NonceStep::Fresh { blockhash } => {
                &&& nonce_of(*account) == Ok::<Seq<u8>, NonceFault>(blockhash@)
                &&& is_fresh(blockhash@, previous)
            },
            NonceStep::Pause { ms } => {
                &&& ms == 100
                &&& nonce_of(*account) is Ok
                &&& !is_fresh(nonce_of(*account)->Ok_0, previous)
                &&& elapsed < patience_ms(wait_ms) * 1_000_000
            },
            NonceStep::Stale { blockhash } => {
                &&& nonce_of(*account) == Ok::<Seq<u8>, NonceFault>(blockhash@)
                &&& !is_fresh(blockhash@, previous)
                &&& elapsed >= patience_ms(wait_ms) * 1_000_000
            },
            NonceStep::Failed { fault } => nonce_of(*account) == Err::<Seq<u8>, NonceFault>(fault),
        },
        step matches NonceStep::Fresh { blockhash } ==> account is Some && blockhash@
            == account->0.data@.subrange(40, 72) && (previous matches Some(p) ==> p@ != blockhash@),
        step matches NonceStep::Stale { blockhash } ==> account is Some && blockhash@
            == account->0.data@.subrange(40, 72) && elapsed >= 100_000_000 && elapsed >= wait_ms
            * 1_000_000,
        step is Pause ==> elapsed < 100_000_000 || elapsed < wait_ms * 1_000_000,
{
    match read_nonce(account) {
        Ok(current) => judge_nonce(current, previous, elapsed, wait_ms),
        Err(fault) => NonceStep::Failed { fault },
    }
}

/// The name of the round that spends a nonce. It can be read back, so that rounds with different
/// nonces have different names.
pub fn round_id(blockhash: &[u8; 32]) -> (id: String)
    ensures
        id@ == crate::codec::base58_encoded(blockhash@),
        crate::codec::base58_decoded(id@) == Some(blockhash@),
{
    base58_encode(blockhash.as_slice())
}

/// The message that reports a nonce that did not advance.
pub fn stale_message(blockhash: &[u8; 32]) -> (text: String)
    ensures
        text@ == "Nonce hash did not advance before timeout; hash still "@
            + crate::codec::base58_encoded(blockhash@),
{
    let mut text = "Nonce hash did not advance before timeout; hash still ".to_owned();
    text.append(round_id(blockhash).as_str());
    text
}

/// A round never has the name of the round before: where a nonce is fresh, the names that
/// `round_id` gives to it and to the nonce before differ.
pub proof fn successive_rounds_differ(
    previous: [u8; 32],
    current: [u8; 32],
    previous_id: Seq<char>,
    current_id: Seq<char>,
)
    requires
        is_fresh(current@, Some(previous)),
        crate::codec::base58_decoded(previous_id) == Some(previous@),
        crate::codec::base58_decoded(current_id) == Some(current@),
    ensures
        previous_id != current_id,
{
}

/// The nonce that is read of an account is the one that is stored in it, byte for byte and in order:
/// bytes 40 to 72 of the data of an account that the system program owns, that says it is of version
/// 0 or 1 and initialized, and that is long enough. Any other account gives none, and the first
/// thing that is wrong with it is the reason.
pub proof fn nonce_is_read_as_stored(account: Option<NonceAccount>)
    ensures
        match account {
            None => nonce_of(account) == Err::<Seq<u8>, NonceFault>(NonceFault::NotFound),
            Some(a) => {
                let data = a.data@;
                let owned = forall|i: int| 0 <= i < 32 ==> #[trigger] a.owner@[i] == 0;
                let version = data.len() >= 8 && (data[0] == 0 || data[0] == 1) && data[1] == 0
                    && data[2] == 0 && data[3] == 0;
                let rest = data.len() >= 8 && data[5] == 0 && data[6] == 0 && data[7] == 0;
                &&& !owned ==> nonce_of(account) == Err::<Seq<u8>, NonceFault>(NonceFault::Owner)
                &&& owned && data.len() == 0 ==> nonce_of(account) == Err::<Seq<u8>, NonceFault>(
                    NonceFault::Empty,
                )
                &&& owned && version && rest && data[4] == 0 ==> nonce_of(account) == Err::<
                    Seq<u8>,
                    NonceFault,
                >(NonceFault::Uninitialized)
                &&& owned && version && rest && data[4] == 1 && data.len() >= 80 ==> nonce_of(
                    account,
                ) == Ok::<Seq<u8>, NonceFault>(data.subrange(40, 72))
                &&& owned && data.len() > 0 && !(version && rest && (data[4] == 0 || (data[4] == 1
                    && data.len() >= 80))) ==> nonce_of(account) == Err::<Seq<u8>, NonceFault>(
                    NonceFault::Data,
                )
            },
        },
{
    if let Some(a) = account {
        let data = a.data@;
        let owned = forall|i: int| 0 <= i < 32 ==> #[trigger] a.owner@[i] == 0;
        reveal_with_fuel(crate::chain::little_endian, 5);
        assert(crate::chain::little_endian(0, 4) =~= seq![0u8, 0, 0, 0]);
        assert(crate::chain::little_endian(1, 4) =~= seq![1u8, 0, 0, 0]);
        if owned {
            assert(a.owner@ =~= crate::chain::system_program());
        } else {
            let i = choose|i: int| 0 <= i < 32 && #[trigger] a.owner@[i] != 0;
            assert(crate::chain::system_program()[i] == 0);
        }
        if data.len() >= 8 {
            lemma_tag(data, 0);
            lemma_tag(data, 4);
        }
    }
}

proof fn lemma_tag(data: Seq<u8>, at: int)
    requires
        0 <= at <= data.len() - 4,
    ensures
        tag_at(data, at, 0) <==> data[at] == 0 && data[at + 1] == 0 && data[at + 2] == 0 && data[at
            + 3] == 0,
        tag_at(data, at, 1) <==> data[at] == 1 && data[at + 1] == 0 && data[at + 2] == 0 && data[at
            + 3] == 0,
{
    let tag = data.subrange(at, at + 4);
    reveal_with_fuel(crate::chain::little_endian, 5);
    assert(crate::chain::little_endian(0, 4) =~= seq![0u8, 0, 0, 0]);
    assert(crate::chain::little_endian(1, 4) =~= seq![1u8, 0, 0, 0]);
    assert(tag[0] == data[at] && tag[1] == data[at + 1] && tag[2] == data[at + 2] && tag[3]
        == data[at + 3]);
    if data[at] == 0 && data[at + 1] == 0 && data[at + 2] == 0 && data[at + 3] == 0 {
        assert(tag =~= seq![0u8, 0, 0, 0]);
    }
    if data[at] == 1 && data[at + 1] == 0 && data[at + 2] == 0 && data[at + 3] == 0 {
        assert(tag =~= seq![1u8, 0, 0, 0]);
    }
}

/// A fresh nonce is waited for as long as is configured, and for a tenth of a second at least. A
/// nonce is fresh where there was none before, or where it differs in some byte from it.
pub proof fn patience_and_freshness(
    wait_ms: u64,
    current: Seq<u8>,
    previous: Option<[u8; 32]>,
)
    requires
        current.len() == 32,
    ensures
        patience_ms(wait_ms) >= 100,
        patience_ms(wait_ms) >= wait_ms,
        patience_ms(wait_ms) == 100 || patience_ms(wait_ms) == wait_ms,
        previous is None ==> is_fresh(current, previous),
        previous matches Some(p) ==> (is_fresh(current, previous) <==> exists|i: int|
            0 <= i < 32 && p@[i] != #[trigger] current[i]),
{
    if let Some(p) = previous {
        if forall|i: int| 0 <= i < 32 ==> p@[i] == #[trigger] current[i] {
            assert(p@ =~= current);
        }
    }
}

/// What is said of each fault, and what lies behind it.
pub proof fn texts_of_nonce_faults()
    ensures
        NonceFault::NotFound.text() == "Nonce account not found"@,
        NonceFault::Owner.text() == "Failed to parse nonce state"@,
        NonceFault::Empty.text() == "Failed to parse nonce state"@,
        NonceFault::Data.text() == "Failed to parse nonce state"@,
        NonceFault::Uninitialized.text() == "Nonce account uninitialized"@,
        NonceFault::NotFound.reason() is None,
        NonceFault::Owner.reason() == Some("invalid account owner"@),
        NonceFault::Empty.reason() == Some("unexpected account data size"@),
        NonceFault::Data.reason() == Some("invalid account data"@),
        NonceFault::Uninitialized.reason() == Some("invalid state for requested operation"@),
{
}

} // verus!
