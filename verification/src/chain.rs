//! Addresses and instructions, and the instructions that a benchmark transaction is made of.

use crate::config::{Config, Endpoint, EndpointKind};
use crate::payload::random_ix_payload;
use solana_compute_budget_interface::ComputeBudgetInstruction;
use solana_pubkey::{ParsePubkeyError, Pubkey};
use vstd::prelude::*;
use vstd::string::*;

verus! {

/// An account address.
#[derive(Debug, Clone, Copy, PartialEq, Eq)]
pub struct Address {
    pub bytes: [u8; 32],
}

impl View for Address {
    type V = Seq<u8>;

    open spec fn view(&self) -> Seq<u8> {
        self.bytes@
    }
}

/// An account that an instruction uses.
#[derive(Debug, Clone, Copy, PartialEq, Eq)]
pub struct AccountMeta {
    pub pubkey: Address,
    pub is_signer: bool,
    pub is_writable: bool,
}

/// An account that an instruction uses.
pub struct MetaModel {
    pub pubkey: Seq<u8>,
    pub is_signer: bool,
    pub is_writable: bool,
}

impl View for AccountMeta {
    type V = MetaModel;

    open spec fn view(&self) -> MetaModel {
        MetaModel {
            pubkey: self.pubkey@,
            is_signer: self.is_signer,
            is_writable: self.is_writable,
        }
    }
}

/// An instruction.
#[derive(Debug, Clone, PartialEq, Eq)]
pub struct Instruction {
    pub program_id: Address,
    pub accounts: Vec<AccountMeta>,
    pub data: Vec<u8>,
}

/// An instruction.
pub struct InstructionModel {
    pub program_id: Seq<u8>,
    pub accounts: Seq<MetaModel>,
    pub data: Seq<u8>,
}

impl View for Instruction {
    type V = InstructionModel;

    open spec fn view(&self) -> InstructionModel {
        InstructionModel {
            program_id: self.program_id@,
            accounts: self.accounts@.map_values(|meta: AccountMeta| meta@),
            data: self.data@,
        }
    }
}

/// What a list of instructions says.
pub open spec fn models(instructions: Seq<Instruction>) -> Seq<InstructionModel> {
    instructions.map_values(|instruction: Instruction| instruction@)
}

/// `n` in `width` bytes, the lowest first.
pub open spec fn little_endian(n: nat, width: nat) -> Seq<u8>
    decreases width,
{
    if width == 0 {
        Seq::empty()
    } else {
        seq![(n % 256) as u8] + little_endian(n / 256, (width - 1) as nat)
    }
}

/// The system program, `11111111111111111111111111111111`.
pub open spec fn system_program() -> Seq<u8> {
    Seq::new(32, |i: int| 0u8)
}

/// `SysvarRecentB1ockHashes11111111111111111111`.
pub open spec fn recent_blockhashes() -> Seq<u8> {
    seq![
        6u8, 167, 213, 23, 25, 44, 86, 142, 224, 138, 132, 95, 115, 210, 151, 136,
        207, 3, 92, 49, 69, 178, 26, 179, 68, 216, 6, 46, 169, 64, 0, 0,
    ]
}

/// `ComputeBudget111111111111111111111111111111`.
pub open spec fn compute_budget_program() -> Seq<u8> {
    seq![
        3u8, 6, 70, 111, 229, 33, 23, 50, 255, 236, 173, 186, 114, 195, 155, 231,
        188, 140, 229, 187, 197, 247, 18, 107, 44, 67, 155, 58, 64, 0, 0, 0,
    ]
}

/// The instruction that moves a nonce account on to its next nonce.
pub open spec fn advance_nonce_model(nonce: Seq<u8>, authority: Seq<u8>) -> InstructionModel {
    InstructionModel {
        program_id: system_program(),
        accounts: seq![
            MetaModel { pubkey: nonce, is_signer: false, is_writable: true },
            MetaModel { pubkey: recent_blockhashes(), is_signer: false, is_writable: false },
            MetaModel { pubkey: authority, is_signer: true, is_writable: false },
        ],
        data: little_endian(4, 4),
    }
}

/// The instruction that pays lamports from one account to another.
pub open spec fn transfer_model(from: Seq<u8>, to: Seq<u8>, lamports: u64) -> InstructionModel {
    InstructionModel {
        program_id: system_program(),
        accounts: seq![
            MetaModel { pubkey: from, is_signer: true, is_writable: true },
            MetaModel { pubkey: to, is_signer: false, is_writable: true },
        ],
        data: little_endian(2, 4) + little_endian(lamports as nat, 8),
    }
}

/// The instruction that sets the price of a compute unit.
pub open spec fn unit_price_model(micro_lamports: u64) -> InstructionModel {
    InstructionModel {
        program_id: compute_budget_program(),
        accounts: Seq::empty(),
        data: seq![3u8] + little_endian(micro_lamports as nat, 8),
    }
}

/// The instruction that sets the number of compute units.
pub open spec fn unit_limit_model(units: u32) -> InstructionModel {
    InstructionModel {
        program_id: compute_budget_program(),
        accounts: Seq::empty(),
        data: seq![2u8] + little_endian(units as nat, 4),
    }
}

/// Why a text is no address.
#[derive(Debug, Clone, Copy, PartialEq, Eq, Structural)]
pub enum AddressFault {
    WrongSize,
    Invalid,
}

impl AddressFault {
    /// The message that reports the fault.
    pub open spec fn text(self) -> Seq<char> {
        match self {
            AddressFault::WrongSize => "String is the wrong size"@,
            AddressFault::Invalid => "Invalid Base58 string"@,
        }
    }

    /// The message that reports the fault.
    pub fn message(&self) -> (text: &'static str)
        ensures
            text@ == self.text(),
    {
        match self {
            AddressFault::WrongSize => "String is the wrong size",
            AddressFault::Invalid => "Invalid Base58 string",
        }
    }
}

/// The address that a text stands for, or why it stands for none.
pub uninterp spec fn parsed_address(text: Seq<char>) -> Result<Seq<u8>, AddressFault>;

/// Whether what came of parsing an address agrees with Base58: an address is what its text decodes
/// to, and only texts that do not decode to 32 bytes are refused.
pub open spec fn parse_is_sound(text: Seq<char>) -> bool {
    match parsed_address(text) {
        Ok(address) => crate::codec::base58_decoded(text) == Some(address) && address.len() == 32,
        Err(_) => crate::codec::base58_decoded(text) matches Some(bytes) ==> bytes.len() != 32,
    }
}

/// Calls `Pubkey::from_str`. Claimed is that what it gives is a function of the text, and that it
/// accepts exactly the Base58 texts of 32 bytes, which are the address.
#[verifier::external_body]
pub(crate) fn parse_address(text: &str) -> (address: Result<Address, AddressFault>)
    ensures
        match address {
            Ok(a) => {
                &&& parsed_address(text@) == Ok::<Seq<u8>, AddressFault>(a@)
                &&& crate::codec::base58_decoded(text@) == Some(a@)
            },
            Err(fault) => {
                &&& parsed_address(text@) == Err::<Seq<u8>, AddressFault>(fault)
                &&& crate::codec::base58_decoded(text@) matches Some(bytes) ==> bytes.len() != 32
            },
        },
{
    match text.parse::<Pubkey>() {
        Ok(pubkey) => Ok(Address { bytes: pubkey.to_bytes() }),
        Err(ParsePubkeyError::WrongSize) => Err(AddressFault::WrongSize),
        Err(ParsePubkeyError::Invalid) => Err(AddressFault::Invalid),
    }
}

/// Calls `advance_nonce_account` of `solana_system_interface`. Claimed is the whole instruction.
#[verifier::external_body]
fn advance_nonce_account(nonce: &Address, authority: &Address) -> (instruction: Instruction)
    ensures
        instruction@ == advance_nonce_model(nonce@, authority@),
{
    let ix = solana_system_interface::instruction::advance_nonce_account(
        &Pubkey::from(nonce.bytes),
        &Pubkey::from(authority.bytes),
    );
    Instruction {
        program_id: Address { bytes: ix.program_id.to_bytes() },
        accounts: ix.accounts.iter().map(|m| AccountMeta {
            pubkey: Address { bytes: m.pubkey.to_bytes() },
            is_signer: m.is_signer,
            is_writable: m.is_writable,
        }).collect(),
        data: ix.data,
    }
}

/// Calls `transfer` of `solana_system_interface`. Claimed is the whole instruction.
#[verifier::external_body]
fn transfer(from: &Address, to: &Address, lamports: u64) -> (instruction: Instruction)
    ensures
        instruction@ == transfer_model(from@, to@, lamports),
{
    let (from, to) = (Pubkey::from(from.bytes), Pubkey::from(to.bytes));
    let ix = solana_system_interface::instruction::transfer(&from, &to, lamports);
    Instruction {
        program_id: Address { bytes: ix.program_id.to_bytes() },
        accounts: ix.accounts.iter().map(|m| AccountMeta {
            pubkey: Address { bytes: m.pubkey.to_bytes() },
            is_signer: m.is_signer,
            is_writable: m.is_writable,
        }).collect(),
        data: ix.data,
    }
}

/// Calls `ComputeBudgetInstruction::set_compute_unit_price`. Claimed is the whole instruction.
#[verifier::external_body]
fn set_compute_unit_price(micro_lamports: u64) -> (instruction: Instruction)
    ensures
        instruction@ == unit_price_model(micro_lamports),
{
    let ix = ComputeBudgetInstruction::set_compute_unit_price(micro_lamports);
    Instruction {
        program_id: Address { bytes: ix.program_id.to_bytes() },
        accounts: ix.accounts.iter().map(|m| AccountMeta {
            pubkey: Address { bytes: m.pubkey.to_bytes() },
            is_signer: m.is_signer,
            is_writable: m.is_writable,
        }).collect(),
        data: ix.data,
    }
}

/// Calls `ComputeBudgetInstruction::set_compute_unit_limit`. Claimed is the whole instruction.
#[verifier::external_body]
fn set_compute_unit_limit(units: u32) -> (instruction: Instruction)
    ensures
        instruction@ == unit_limit_model(units),
{
    let ix = ComputeBudgetInstruction::set_compute_unit_limit(units);
    Instruction {
        program_id: Address { bytes: ix.program_id.to_bytes() },
        accounts: ix.accounts.iter().map(|m| AccountMeta {
            pubkey: Address { bytes: m.pubkey.to_bytes() },
            is_signer: m.is_signer,
            is_writable: m.is_writable,
        }).collect(),
        data: ix.data,
    }
}

/// The tip that an endpoint asks for.
#[derive(Debug)]
pub enum Tip<'a> {
    /// The endpoint takes none, or none is set.
    Unpaid,
    /// A tip is set, but not the wallet it goes to.
    Walletless,
    /// Pay so many lamports to this wallet.
    Pay { lamports: u64, wallet: &'a String },
}

/// Whether an endpoint is paid a tip: only endpoints other than plain RPC nodes are, where a tip
/// above zero is set.
pub open spec fn tipped(endpoint: Endpoint) -> bool {
    endpoint.kind != EndpointKind::Rpc && crate::config::tips(endpoint)
}

/// The tip that an endpoint asks for.
pub fn tip_for<'a>(endpoint: &'a Endpoint) -> (tip: Tip<'a>)
    ensures
        match tip {
            Tip::Unpaid => !tipped(*endpoint),
            Tip::Walletless => tipped(*endpoint) && endpoint.tip_wallet is None,
            Tip::Pay { lamports, wallet } => {
                &&& tipped(*endpoint)
                &&& endpoint.tip_lamports == Some(lamports)
                &&& endpoint.tip_wallet == Some(*wallet)
            },
        },
{
    if endpoint.kind == EndpointKind::Rpc {
        return Tip::Unpaid;
    }
    match endpoint.tip_lamports {
        Some(lamports) => {
            if lamports == 0 {
                return Tip::Unpaid;
            }
            match &endpoint.tip_wallet {
                Some(wallet) => Tip::Pay { lamports, wallet },
                None => Tip::Walletless,
            }
        },
        None => Tip::Unpaid,
    }
}

/// The instructions that set price and limit of compute units, where a fee is paid.
pub open spec fn budget_models(prio_fee: Option<u64>, cu_limit: u32) -> Seq<InstructionModel> {
    match prio_fee {
        Some(price) => seq![unit_price_model(price), unit_limit_model(cu_limit)],
        None => Seq::empty(),
    }
}

/// The instruction that carries a memo.
pub open spec fn memo_model(memo_program: Seq<u8>, memo: Seq<u8>) -> InstructionModel {
    InstructionModel { program_id: memo_program, accounts: Seq::empty(), data: memo }
}

/// The instruction that pays a tip, where one is paid.
pub open spec fn tip_models(authority: Seq<u8>, tip: Option<(u64, Seq<u8>)>) -> Seq<
    InstructionModel,
> {
    match tip {
        Some((lamports, wallet)) => seq![transfer_model(authority, wallet, lamports)],
        None => Seq::empty(),
    }
}

/// The instructions of a benchmark transaction: advance the nonce, set the fee, carry the memo,
/// pay the tip.
pub open spec fn transaction_models(
    nonce: Seq<u8>,
    authority: Seq<u8>,
    prio_fee: Option<u64>,
    cu_limit: u32,
    memo_program: Seq<u8>,
    memo: Seq<u8>,
    tip: Option<(u64, Seq<u8>)>,
) -> Seq<InstructionModel> {
    seq![advance_nonce_model(nonce, authority)] + budget_models(prio_fee, cu_limit) + seq![
        memo_model(memo_program, memo),
    ] + tip_models(authority, tip)
}

/// Puts the instructions of a benchmark transaction together.
pub fn assemble_instructions(
    nonce_account: &Address,
    authority: &Address,
    prio_fee: Option<u64>,
    cu_limit: u32,
    memo_program: &Address,
    memo: Vec<u8>,
    tip: Option<(u64, Address)>,
) -> (instructions: Vec<Instruction>)
    ensures
        models(instructions@) == transaction_models(
            nonce_account@,
            authority@,
            prio_fee,
            cu_limit,
            memo_program@,
            memo@,
            match tip {
                Some((lamports, wallet)) => Some((lamports, wallet@)),
                None => None,
            },
        ),
{
    let mut instructions: Vec<Instruction> = Vec::new();
    instructions.push(advance_nonce_account(nonce_account, authority));
    if let Some(price) = prio_fee {
        instructions.push(set_compute_unit_price(price));
        instructions.push(set_compute_unit_limit(cu_limit));
    }
    let carrier = Instruction { program_id: *memo_program, accounts: Vec::new(), data: memo };
    assert(carrier@.accounts =~= Seq::<MetaModel>::empty());
    instructions.push(carrier);
    if let Some((lamports, wallet)) = tip {
        instructions.push(transfer(authority, &wallet, lamports));
    }
    instructions
}

/// Why a transaction cannot be built.
#[derive(Debug)]
pub enum BuildFault {
    MemoProgram { fault: AddressFault },
    NoWallet { kind: EndpointKind, name: String },
    Wallet { name: String, fault: AddressFault },
}

impl BuildFault {
    /// The message that reports the fault.
    pub open spec fn text(self) -> Seq<char> {
        match self {
            BuildFault::MemoProgram { fault } => "Invalid memo program id: "@ + fault.text(),
            BuildFault::NoWallet { kind, name } => kind.title() + " endpoint "@ + name@
                + " missing tip_wallet"@,
            BuildFault::Wallet { name, fault } => "Invalid tip_wallet for "@ + name@ + ": "@
                + fault.text(),
        }
    }

    /// The message that reports the fault.
    pub fn message(&self) -> (text: String)
        ensures
            text@ == self.text(),
    {
        match self {
            BuildFault::MemoProgram { fault } => {
                let mut text = "Invalid memo program id: ".to_owned();
                text.append(fault.message());
                text
            },
            BuildFault::NoWallet { kind, name } => {
                let mut text = kind.title_str().to_owned();
                text.append(" endpoint ");
                text.append(name.as_str());
                text.append(" missing tip_wallet");
                text
            },
            BuildFault::Wallet { name, fault } => {
                let mut text = "Invalid tip_wallet for ".to_owned();
                text.append(name.as_str());
                text.append(": ");
                text.append(fault.message());
                text
            },
        }
    }
}

/// The address of the memo program.
pub open spec fn memo_program_text() -> Seq<char> {
    "Fa1CoNWTFZkQaJCuGRLshjJ3n9t6fYsARK3GjdAGjnXx"@
}

/// The address of the memo program.
pub fn memo_program() -> (address: Result<Address, AddressFault>)
    ensures
        match address {
            Ok(a) => parsed_address(memo_program_text()) == Ok::<Seq<u8>, AddressFault>(a@),
            Err(fault) => parsed_address(memo_program_text()) == Err::<Seq<u8>, AddressFault>(
                fault,
            ),
        },
        parse_is_sound(memo_program_text()),
{
    parse_address("Fa1CoNWTFZkQaJCuGRLshjJ3n9t6fYsARK3GjdAGjnXx")
}

/// The address of the configured nonce account.
pub fn nonce_address(config: &Config) -> (address: Result<Address, AddressFault>)
    ensures
        match address {
            Ok(a) => parsed_address(config.nonce_account@) == Ok::<Seq<u8>, AddressFault>(a@),
            Err(fault) => parsed_address(config.nonce_account@) == Err::<Seq<u8>, AddressFault>(
                fault,
            ),
        },
        parse_is_sound(config.nonce_account@),
{
    parse_address(config.nonce_account.as_str())
}

/// The tip that a transaction for an endpoint pays, as far as its wallet is an address.
pub open spec fn paid_tip(endpoint: Endpoint) -> Option<(u64, Seq<u8>)> {
    if tipped(endpoint) {
        Some((endpoint.tip_lamports->0, parsed_address(endpoint.tip_wallet->0@)->Ok_0))
    } else {
        None
    }
}

/// Whether a transaction for an endpoint can be built: the memo program has an address, and where a
/// tip is paid its wallet has one.
pub open spec fn buildable(endpoint: Endpoint) -> bool {
    &&& parsed_address(memo_program_text()) is Ok
    &&& tipped(endpoint) ==> endpoint.tip_wallet is Some && parsed_address(
        endpoint.tip_wallet->0@,
    ) is Ok
}

/// Whether the addresses that a transaction for an endpoint needs were parsed soundly: that of the
/// memo program, and that of the wallet of a tip, which is looked at only where the first is one.
pub open spec fn addresses_are_sound(endpoint: Endpoint) -> bool {
    &&& parse_is_sound(memo_program_text())
    &&& parsed_address(memo_program_text()) is Ok && tipped(endpoint) && endpoint.tip_wallet is Some
        ==> parse_is_sound(endpoint.tip_wallet->0@)
}

/// Whether a fault is the one that keeps a transaction for an endpoint from being built.
pub open spec fn faulty(endpoint: Endpoint, fault: BuildFault) -> bool {
    let program = parsed_address(memo_program_text());
    match fault {
        BuildFault::MemoProgram { fault } => program == Err::<Seq<u8>, AddressFault>(fault),
        BuildFault::NoWallet { kind, name } => {
            &&& program is Ok
            &&& tipped(endpoint)
            &&& endpoint.tip_wallet is None
            &&& kind == endpoint.kind
            &&& name@ == endpoint.name@
        },
        BuildFault::Wallet { name, fault } => {
            &&& program is Ok
            &&& tipped(endpoint)
            &&& endpoint.tip_wallet is Some
            &&& parsed_address(endpoint.tip_wallet->0@) == Err::<Seq<u8>, AddressFault>(fault)
            &&& name@ == endpoint.name@
        },
    }
}

/// The memo of a transaction.
pub open spec fn memo_bytes(memo_text: Seq<char>, now: Seq<char>, count: u64) -> Seq<u8> {
    vstd::utf8::encode_utf8(
        crate::payload::memo_text(
            memo_text,
            crate::payload::payload_tail(memo_text, now, count),
        ),
    )
}

/// The instructions of a transaction for an endpoint.
pub open spec fn endpoint_models(
    endpoint: Endpoint,
    nonce: Seq<u8>,
    authority: Seq<u8>,
    memo: Seq<u8>,
    prio_fee: Option<u64>,
    cu_limit: u32,
) -> Seq<InstructionModel> {
    transaction_models(
        nonce,
        authority,
        prio_fee,
        cu_limit,
        parsed_address(memo_program_text())->Ok_0,
        memo,
        paid_tip(endpoint),
    )
}

/// The instructions of a transaction for an endpoint. `now` and `count` make its memo random.
pub fn build_instructions(
    endpoint: &Endpoint,
    nonce_account: &Address,
    authority: &Address,
    memo_text: &str,
    prio_fee: Option<u64>,
    cu_limit: u32,
    now: &str,
    count: u64,
) -> (built: Result<Vec<Instruction>, BuildFault>)
    ensures
        match built {
            Ok(instructions) => {
                &&& buildable(*endpoint)
                &&& models(instructions@) == endpoint_models(
                    *endpoint,
                    nonce_account@,
                    authority@,
                    memo_bytes(memo_text@, now@, count),
                    prio_fee,
                    cu_limit,
                )
                &&& crate::payload::tail_is_sound(memo_text@, now@, count)
            },
            Err(fault) => !buildable(*endpoint) && faulty(*endpoint, fault),
        },
        addresses_are_sound(*endpoint),
        built matches Ok(instructions) ==> {
            let at: int = if prio_fee is Some {
                3
            } else {
                1
            };
            let pays = endpoint.kind != EndpointKind::Rpc && endpoint.tip_lamports is Some
                && endpoint.tip_lamports->0 > 0;
            &&& instructions@.len() == at + (if pays {
                2int
            } else {
                1
            })
            &&& prio_fee matches Some(price) ==> {
                &&& instructions@[1].data@.len() == 9 && instructions@[1].data@[0] == 3
                &&& number_in(instructions@[1].data@.drop_first()) == price
                &&& instructions@[2].data@.len() == 5 && instructions@[2].data@[0] == 2
                &&& number_in(instructions@[2].data@.drop_first()) == cu_limit
            }
            &&& pays ==> number_in(instructions@[at + 1].data@.skip(4)) == endpoint.tip_lamports->0
        },
{
    let program = match memo_program() {
        Ok(program) => program,
        Err(fault) => {
            return Err(BuildFault::MemoProgram { fault });
        },
    };
    let memo = random_ix_payload(memo_text, now, count);
    let tip = match tip_for(endpoint) {
        Tip::Unpaid => None,
        Tip::Walletless => {
            return Err(
                BuildFault::NoWallet { kind: endpoint.kind, name: endpoint.name.clone() },
            );
        },
        Tip::Pay { lamports, wallet } => match parse_address(wallet.as_str()) {
            Ok(address) => Some((lamports, address)),
            Err(fault) => {
                return Err(BuildFault::Wallet { name: endpoint.name.clone(), fault });
            },
        },
    };
    let instructions =
        assemble_instructions(
            nonce_account,
            authority,
            prio_fee,
            cu_limit,
            &program,
            memo,
            tip,
        );
    proof {
        instructions_of_an_endpoint(
            *endpoint,
            nonce_account@,
            authority@,
            memo_bytes(memo_text@, now@, count),
            prio_fee,
            cu_limit,
        );
        let all = models(instructions@);
        assert(all.len() == instructions@.len());
        assert forall|i: int| 0 <= i < all.len() implies #[trigger] all[i].data
            == instructions@[i].data@ by {}
    }
    Ok(instructions)
}

/// An endpoint that passed the checks of the configuration has whatever tip it asks for: tips are
/// paid to all endpoints but plain RPC nodes, and none of them lacks its wallet.
pub proof fn checked_endpoint_pays_its_tip(endpoint: Endpoint)
    requires
        crate::config::endpoint_fault(endpoint) is None,
    ensures
        tipped(endpoint) <==> endpoint.kind != EndpointKind::Rpc,
        tipped(endpoint) ==> endpoint.tip_wallet is Some,
        endpoint.kind == EndpointKind::Soyas ==> endpoint.api_key is Some,
        forall|fault: BuildFault| #[trigger] faulty(endpoint, fault) ==> !(fault is NoWallet),
{
}

/// Whether nobody but `authority` has to sign some instructions.
pub open spec fn signed_only_by(instructions: Seq<InstructionModel>, authority: Seq<u8>) -> bool {
    forall|i: int, j: int|
        0 <= i < instructions.len() && 0 <= j < instructions[i].accounts.len() && (
        #[trigger] instructions[i].accounts[j]).is_signer ==> instructions[i].accounts[j].pubkey
            == authority
}

/// A benchmark transaction starts by advancing the nonce, is signed by its authority alone, and
/// carries exactly one memo, behind the fee and before the tip.
pub proof fn transaction_shape(
    nonce: Seq<u8>,
    authority: Seq<u8>,
    prio_fee: Option<u64>,
    cu_limit: u32,
    memo_program: Seq<u8>,
    memo: Seq<u8>,
    tip: Option<(u64, Seq<u8>)>,
)
    ensures
        ({
            let all = transaction_models(
                nonce,
                authority,
                prio_fee,
                cu_limit,
                memo_program,
                memo,
                tip,
            );
            let at: int = if prio_fee is Some {
                3
            } else {
                1
            };
            &&& all.first() == advance_nonce_model(nonce, authority)
            &&& signed_only_by(all, authority)
            &&& all.len() == at + 1 + (if tip is Some {
                1int
            } else {
                0
            })
            &&& all[at] == memo_model(memo_program, memo)
            &&& forall|i: int| 0 <= i < all.len() ==> (#[trigger] all[i]).accounts.len() <= 3
            &&& memo_program != system_program() && memo_program != compute_budget_program()
                ==> forall|i: int|
                0 <= i < all.len() && (#[trigger] all[i]).program_id == memo_program ==> i == at
        }),
{
}

/// The number that bytes stand for, the lowest first.
pub open spec fn number_in(bytes: Seq<u8>) -> nat
    decreases bytes.len(),
{
    if bytes.len() == 0 {
        0
    } else {
        bytes[0] as nat + 256 * number_in(bytes.drop_first())
    }
}

/// How many numbers fit into so many bytes.
spec fn room_in(width: nat) -> nat
    decreases width,
{
    if width == 0 {
        1
    } else {
        256 * room_in((width - 1) as nat)
    }
}

proof fn lemma_little_endian(n: nat, width: nat)
    requires
        n < room_in(width),
    ensures
        little_endian(n, width).len() == width,
        number_in(little_endian(n, width)) == n,
    decreases width,
{
    if width > 0 {
        lemma_little_endian(n / 256, (width - 1) as nat);
        assert(little_endian(n, width).drop_first() =~= little_endian(
            n / 256,
            (width - 1) as nat,
        ));
    }
}

/// Numbers are written with the lowest byte first: eight bytes hold any `u64` and four any `u32`,
/// and the number is read back from them.
pub proof fn numbers_read_back(long: u64, short: u32)
    ensures
        little_endian(long as nat, 8).len() == 8,
        number_in(little_endian(long as nat, 8)) == long,
        little_endian(short as nat, 4).len() == 4,
        number_in(little_endian(short as nat, 4)) == short,
{
    reveal_with_fuel(room_in, 9);
    lemma_little_endian(long as nat, 8);
    lemma_little_endian(short as nat, 4);
}

/// What an instruction says is its program, its accounts one by one and its data.
pub proof fn instructions_say_all(instructions: Seq<Instruction>, i: int, j: int)
    requires
        0 <= i < instructions.len(),
    ensures
        models(instructions).len() == instructions.len(),
        models(instructions)[i].program_id == instructions[i].program_id.bytes@,
        models(instructions)[i].data == instructions[i].data@,
        models(instructions)[i].accounts.len() == instructions[i].accounts@.len(),
        0 <= j < instructions[i].accounts@.len() ==> {
            let meta = instructions[i].accounts@[j];
            let model = models(instructions)[i].accounts[j];
            &&& model.pubkey == meta.pubkey.bytes@
            &&& model.is_signer == meta.is_signer
            &&& model.is_writable == meta.is_writable
        },
{
}

/// The instructions of a transaction for an endpoint, one by one. The first advances the nonce: the
/// system program, command 4, with the nonce account, a sysvar, and the authority as signer. Where a
/// fee is set, the second sets the price of a compute unit to it (command 3) and the third the limit
/// to the one given (command 2). Then comes the memo. Where the endpoint is no plain RPC node and a
/// tip above zero is set, the last pays it from the authority to the wallet (command 2 of the
/// system program).
pub proof fn instructions_of_an_endpoint(
    endpoint: Endpoint,
    nonce: Seq<u8>,
    authority: Seq<u8>,
    memo: Seq<u8>,
    prio_fee: Option<u64>,
    cu_limit: u32,
)
    ensures
        ({
            let all = endpoint_models(endpoint, nonce, authority, memo, prio_fee, cu_limit);
            let at: int = if prio_fee is Some {
                3
            } else {
                1
            };
            let pays = endpoint.kind != EndpointKind::Rpc && endpoint.tip_lamports is Some
                && endpoint.tip_lamports->0 > 0;
            &&& all.len() == at + (if pays {
                2int
            } else {
                1
            })
            &&& all[0].program_id == Seq::new(32, |i: int| 0u8)
            &&& all[0].data == seq![4u8, 0, 0, 0]
            &&& all[0].accounts.len() == 3
            &&& all[0].accounts[0].pubkey == nonce
            &&& !all[0].accounts[0].is_signer && all[0].accounts[0].is_writable
            &&& !all[0].accounts[1].is_signer && !all[0].accounts[1].is_writable
            &&& all[0].accounts[2].pubkey == authority
            &&& all[0].accounts[2].is_signer && !all[0].accounts[2].is_writable
            &&& prio_fee matches Some(price) ==> {
                &&& all[1].program_id == all[2].program_id
                &&& all[1].accounts.len() == 0 && all[2].accounts.len() == 0
                &&& all[1].data.len() == 9 && all[1].data[0] == 3
                &&& number_in(all[1].data.drop_first()) == price
                &&& all[2].data.len() == 5 && all[2].data[0] == 2
                &&& number_in(all[2].data.drop_first()) == cu_limit
            }
            &&& all[at].program_id == parsed_address(
                "Fa1CoNWTFZkQaJCuGRLshjJ3n9t6fYsARK3GjdAGjnXx"@,
            )->Ok_0
            &&& all[at].accounts.len() == 0
            &&& all[at].data == memo
            &&& pays ==> {
                let tip = all[at + 1];
                &&& tip.program_id == Seq::new(32, |i: int| 0u8)
                &&& tip.accounts.len() == 2
                &&& tip.accounts[0].pubkey == authority
                &&& tip.accounts[0].is_signer && tip.accounts[0].is_writable
                &&& tip.accounts[1].pubkey == parsed_address(endpoint.tip_wallet->0@)->Ok_0
                &&& !tip.accounts[1].is_signer && tip.accounts[1].is_writable
                &&& tip.data.len() == 12
                &&& tip.data.take(4) == seq![2u8, 0, 0, 0]
                &&& number_in(tip.data.skip(4)) == endpoint.tip_lamports->0
            }
        }),
{
    let all = endpoint_models(endpoint, nonce, authority, memo, prio_fee, cu_limit);
    reveal_with_fuel(little_endian, 5);
    assert(little_endian(4, 4) =~= seq![4u8, 0, 0, 0]);
    assert(little_endian(2, 4) =~= seq![2u8, 0, 0, 0]);
    if let Some(price) = prio_fee {
        numbers_read_back(price, cu_limit);
        assert(all[1].data.drop_first() =~= little_endian(price as nat, 8));
        assert(all[2].data.drop_first() =~= little_endian(cu_limit as nat, 4));
    }
    if tipped(endpoint) {
        let lamports = endpoint.tip_lamports->0;
        numbers_read_back(lamports, cu_limit);
        let tip = all.last();
        assert(tip.data.take(4) =~= little_endian(2, 4));
        assert(tip.data.skip(4) =~= little_endian(lamports as nat, 8));
    }
}

/// Where a fee is set, transactions with different limits, or with different fees, differ.
pub proof fn budgets_tell_transactions_apart(
    endpoint: Endpoint,
    nonce: Seq<u8>,
    authority: Seq<u8>,
    memo: Seq<u8>,
    price1: u64,
    limit1: u32,
    price2: u64,
    limit2: u32,
)
    requires
        price1 != price2 || limit1 != limit2,
    ensures
        endpoint_models(endpoint, nonce, authority, memo, Some(price1), limit1) != endpoint_models(
            endpoint,
            nonce,
            authority,
            memo,
            Some(price2),
            limit2,
        ),
{
    instructions_of_an_endpoint(endpoint, nonce, authority, memo, Some(price1), limit1);
    instructions_of_an_endpoint(endpoint, nonce, authority, memo, Some(price2), limit2);
}

/// The memo of a transaction is the text it was made for, a bar, and the Base58 text of the BLAKE3
/// hash of that text, the time and the number, with bars between.
pub proof fn memo_is_text_and_hash(memo_text: Seq<char>, now: Seq<char>, count: u64)
    ensures
        memo_bytes(memo_text, now, count) == vstd::utf8::encode_utf8(
            memo_text + seq!['|'] + crate::codec::base58_encoded(
                crate::codec::blake3_digest(
                    vstd::utf8::encode_utf8(
                        memo_text + seq!['|'] + now + seq!['|'] + crate::text::decimal_text(
                            count as nat,
                        ),
                    ),
                ),
            ),
        ),
{
    reveal_strlit("|");
    assert("|"@ =~= seq!['|']);
}

/// A transaction can be built where the memo program has an address and, where a tip is paid, there
/// is a wallet and it has one; the first of these that fails is reported, for the endpoint.
pub proof fn faults_of_building(endpoint: Endpoint, fault: BuildFault)
    ensures
        ({
            let program = parsed_address("Fa1CoNWTFZkQaJCuGRLshjJ3n9t6fYsARK3GjdAGjnXx"@);
            let pays = endpoint.kind != EndpointKind::Rpc && endpoint.tip_lamports is Some
                && endpoint.tip_lamports->0 > 0;
            let wallet = parsed_address(endpoint.tip_wallet->0@);
            &&& buildable(endpoint) <==> program is Ok && (pays ==> endpoint.tip_wallet is Some
                && wallet is Ok)
            &&& faulty(endpoint, fault) <==> match fault {
                BuildFault::MemoProgram { fault } => program is Err && program->Err_0 == fault,
                BuildFault::NoWallet { kind, name } => program is Ok && pays
                    && endpoint.tip_wallet is None && kind == endpoint.kind && name@
                    == endpoint.name@,
                BuildFault::Wallet { name, fault } => program is Ok && pays
                    && endpoint.tip_wallet is Some && wallet is Err && wallet->Err_0 == fault && name@
                    == endpoint.name@,
            }
        }),
{
}

/// What is said of each fault.
pub proof fn texts_of_building_faults(name: String, fault: AddressFault)
    ensures
        AddressFault::WrongSize.text() == "String is the wrong size"@,
        AddressFault::Invalid.text() == "Invalid Base58 string"@,
        (BuildFault::MemoProgram { fault }).text() == "Invalid memo program id: "@ + fault.text(),
        (BuildFault::NoWallet { kind: EndpointKind::Custom, name }).text() == "Custom"@
            + " endpoint "@ + name@ + " missing tip_wallet"@,
        (BuildFault::NoWallet { kind: EndpointKind::Soyas, name }).text() == "Soyas"@
            + " endpoint "@ + name@ + " missing tip_wallet"@,
        (BuildFault::Wallet { name, fault }).text() == "Invalid tip_wallet for "@ + name@ + ": "@
            + fault.text(),
{
}

/// The instructions of any benchmark transaction, one by one, whatever the memo program, the memo
/// and the tip are.
pub proof fn instructions_one_by_one(
    nonce: Seq<u8>,
    authority: Seq<u8>,
    prio_fee: Option<u64>,
    cu_limit: u32,
    memo_program: Seq<u8>,
    memo: Seq<u8>,
    tip: Option<(u64, Seq<u8>)>,
)
    ensures
        ({
            let all = transaction_models(
                nonce,
                authority,
                prio_fee,
                cu_limit,
                memo_program,
                memo,
                tip,
            );
            let at: int = if prio_fee is Some {
                3
            } else {
                1
            };
            &&& all.len() == at + (if tip is Some {
                2int
            } else {
                1
            })
            &&& all[0].data == seq![4u8, 0, 0, 0]
            &&& all[0].accounts.len() == 3
            &&& all[0].accounts[0].pubkey == nonce && all[0].accounts[2].pubkey == authority
            &&& prio_fee matches Some(price) ==> {
                &&& all[1].data.len() == 9 && all[1].data[0] == 3
                &&& number_in(all[1].data.drop_first()) == price
                &&& all[2].data.len() == 5 && all[2].data[0] == 2
                &&& number_in(all[2].data.drop_first()) == cu_limit
            }
            &&& all[at].program_id == memo_program
            &&& all[at].accounts.len() == 0
            &&& all[at].data == memo
            &&& tip matches Some((lamports, wallet)) ==> {
                let pay = all[at + 1];
                &&& pay.accounts.len() == 2
                &&& pay.accounts[0].pubkey == authority && pay.accounts[0].is_signer
                &&& pay.accounts[1].pubkey == wallet && !pay.accounts[1].is_signer
                &&& pay.data.len() == 12
                &&& pay.data.take(4) == seq![2u8, 0, 0, 0]
                &&& number_in(pay.data.skip(4)) == lamports
            }
        }),
{
    let all = transaction_models(nonce, authority, prio_fee, cu_limit, memo_program, memo, tip);
    reveal_with_fuel(little_endian, 5);
    assert(little_endian(4, 4) =~= seq![4u8, 0, 0, 0]);
    assert(little_endian(2, 4) =~= seq![2u8, 0, 0, 0]);
    if let Some(price) = prio_fee {
        numbers_read_back(price, cu_limit);
        assert(all[1].data.drop_first() =~= little_endian(price as nat, 8));
        assert(all[2].data.drop_first() =~= little_endian(cu_limit as nat, 4));
    }
    if let Some((lamports, wallet)) = tip {
        numbers_read_back(lamports, cu_limit);
        assert(all.last().data.take(4) =~= little_endian(2, 4));
        assert(all.last().data.skip(4) =~= little_endian(lamports as nat, 8));
    }
}

} // verus!
