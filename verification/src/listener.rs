//! The stream that landings are observed on: what to subscribe to, how the listener goes from one
//! step to the next, and how a memo is found in a transaction.

use crate::chain::Address;
use crate::codec::{base58_encode, same_bytes, utf8_text};
use crate::config::{ArgsCommitment, CommitmentLevel, GrpcEndpoint, GrpcKind};
use crate::text::{starts_with, trim};
use vstd::prelude::*;
use vstd::string::*;

verus! {

/// An instruction of an observed transaction.
#[derive(Debug, Clone)]
pub struct CompiledInstruction {
    pub program_id_index: u32,
    pub data: Vec<u8>,
}

/// The message of an observed transaction.
#[derive(Debug, Clone)]
pub struct ObservedMessage {
    pub account_keys: Vec<Vec<u8>>,
    pub instructions: Vec<CompiledInstruction>,
}

/// An observed transaction.
#[derive(Debug, Clone)]
pub struct ObservedTransaction {
    pub signatures: Vec<Vec<u8>>,
    pub message: Option<ObservedMessage>,
}

/// What the stream says of an observed transaction.
#[derive(Debug, Clone)]
pub struct TransactionInfo {
    pub transaction: Option<ObservedTransaction>,
}

/// A transaction on the stream.
#[derive(Debug, Clone)]
pub struct TransactionUpdate {
    pub transaction: Option<TransactionInfo>,
}

/// The first signature and the message of a transaction, where it has both.
pub open spec fn observed(update: TransactionUpdate) -> Option<(Seq<u8>, ObservedMessage)> {
    match update.transaction {
        Some(info) => match info.transaction {
            Some(transaction) => if transaction.signatures@.len() == 0 {
                None
            } else {
                match transaction.message {
                    Some(message) => Some((transaction.signatures@[0]@, message)),
                    None => None,
                }
            },
            None => None,
        },
        None => None,
    }
}

/// Whether an instruction of a message carries a memo: it calls the memo program, and its data are
/// text.
pub open spec fn carries_memo(message: ObservedMessage, program: Seq<u8>, i: int) -> bool {
    let instruction = message.instructions@[i];
    let index = instruction.program_id_index as int;
    &&& index < message.account_keys@.len()
    &&& message.account_keys@[index]@ == program
    &&& vstd::utf8::valid_utf8(instruction.data@)
}

/// The memo that a message carries first, from instruction `i` on.
pub open spec fn memo_from(message: ObservedMessage, program: Seq<u8>, i: int) -> Option<Seq<char>>
    decreases message.instructions@.len() - i,
{
    if i < 0 || i >= message.instructions@.len() {
        None
    } else if carries_memo(message, program, i) {
        Some(vstd::utf8::decode_utf8(message.instructions@[i].data@))
    } else {
        memo_from(message, program, i + 1)
    }
}

/// The signature of a transaction, in Base58, and the memo it carries first.
pub open spec fn extracted(update: TransactionUpdate, program: Seq<u8>) -> Option<
    (Seq<char>, Seq<char>),
> {
    match observed(update) {
        Some((signature, message)) => match memo_from(message, program, 0) {
            Some(memo) => Some((crate::codec::base58_encoded(signature), memo)),
            None => None,
        },
        None => None,
    }
}

/// The memo that a message carries first.
pub fn find_memo(message: &ObservedMessage, memo_program: &Address) -> (memo: Option<String>)
    ensures
        match memo {
            Some(m) => memo_from(*message, memo_program@, 0) == Some(m@),
            None => memo_from(*message, memo_program@, 0) is None,
        },
{
    let mut i: usize = 0;
    while i < message.instructions.len()
        invariant
            i <= message.instructions.len(),
            memo_from(*message, memo_program@, 0) == memo_from(*message, memo_program@, i as int),
        decreases message.instructions.len() - i,
    {
        let instruction = &message.instructions[i];
        let index: usize = instruction.program_id_index as usize;
        if index < message.account_keys.len() && same_bytes(
            message.account_keys[index].as_slice(),
            memo_program.bytes.as_slice(),
        ) {
            let data = instruction.data.clone();
            assert(data@ == instruction.data@);
            if let Some(memo) = utf8_text(data) {
                proof {
                    vstd::utf8::encode_utf8_decode_utf8(memo@);
                }
                return Some(memo);
            }
        }
        i += 1;
    }
    None
}

/// The signature of a transaction, in Base58, and the memo it carries first.
pub fn extract_memo(update: &TransactionUpdate, memo_program: &Address) -> (found: Option<
    (String, String),
>)
    ensures
        match found {
            Some((signature, memo)) => extracted(*update, memo_program@) == Some(
                (signature@, memo@),
            ),
            None => extracted(*update, memo_program@) is None,
        },
{
    let info = match &update.transaction {
        Some(info) => info,
        None => {
            return None;
        },
    };
    let transaction = match &info.transaction {
        Some(transaction) => transaction,
        None => {
            return None;
        },
    };
    if transaction.signatures.is_empty() {
        return None;
    }
    let message = match &transaction.message {
        Some(message) => message,
        None => {
            return None;
        },
    };
    match find_memo(message, memo_program) {
        Some(memo) => {
            let signature = base58_encode(transaction.signatures[0].as_slice());
            Some((signature, memo))
        },
        None => None,
    }
}

/// Whether instruction `at` of an observed transaction carries the memo of a provider with a given
/// tail, and none before it carries a memo.
pub open spec fn shows_memo(
    update: TransactionUpdate,
    program: Seq<u8>,
    at: int,
    provider: Seq<char>,
    tail: Seq<char>,
) -> bool {
    match observed(update) {
        Some((signature, message)) => {
            let instruction = message.instructions@[at];
            &&& 0 <= at < message.instructions@.len()
            &&& instruction.program_id_index < message.account_keys@.len()
            &&& message.account_keys@[instruction.program_id_index as int]@ == program
            &&& instruction.data@ == vstd::utf8::encode_utf8(
                crate::payload::memo_text(provider, tail),
            )
            &&& forall|i: int| 0 <= i < at ==> !#[trigger] carries_memo(message, program, i)
        },
        None => false,
    }
}

/// The first signature of an observed transaction, in Base58.
pub open spec fn signature_text(update: TransactionUpdate) -> Seq<char> {
    match observed(update) {
        Some((signature, message)) => crate::codec::base58_encoded(signature),
        None => Seq::empty(),
    }
}

/// The memo of a transaction that was sent for a provider comes back from the stream: where the
/// first memo in it is that provider's, it is what is extracted, with the first signature in Base58.
pub proof fn sent_memo_is_extracted(
    update: TransactionUpdate,
    program: Seq<u8>,
    at: int,
    provider: Seq<char>,
    tail: Seq<char>,
)
    requires
        shows_memo(update, program, at, provider, tail),
    ensures
        extracted(update, program) == Some(
            (signature_text(update), crate::payload::memo_text(provider, tail)),
        ),
{
    if let Some((signature, message)) = observed(update) {
        crate::payload::memo_reads_back(provider, tail);
        assert(carries_memo(message, program, at));
        lemma_memo_from(message, program, 0, at);
    }
}

proof fn lemma_memo_from(message: ObservedMessage, program: Seq<u8>, from: int, at: int)
    requires
        0 <= from <= at < message.instructions@.len(),
        carries_memo(message, program, at),
        forall|i: int| from <= i < at ==> !#[trigger] carries_memo(message, program, i),
    ensures
        memo_from(message, program, from) == Some(
            vstd::utf8::decode_utf8(message.instructions@[at].data@),
        ),
    decreases at - from,
{
    if from < at {
        lemma_memo_from(message, program, from + 1, at);
    }
}

/// A transaction that was sent and recorded under its signature lands when the stream shows it:
/// what is extracted of it closes its record in favour of its provider, unless that provider's name
/// holds a bar.
pub proof fn sent_transaction_lands<W, N>(
    book: crate::book::BookModel<W, N>,
    update: TransactionUpdate,
    program: Seq<u8>,
    at: int,
    tail: Seq<char>,
    send: crate::book::SendModel,
    waiter: W,
    fresh: N,
)
    requires
        !send.provider.contains('|'),
        shows_memo(update, program, at, send.provider, tail),
    ensures
        ({
            let sent = book.after_send(signature_text(update), send, waiter, fresh);
            &&& extracted(update, program) matches Some((seen, memo))
            &&& seen == signature_text(update)
            &&& sent.lands(seen, memo)
        }),
{
    sent_memo_is_extracted(update, program, at, send.provider, tail);
    crate::payload::memo_names_its_provider(send.provider, tail);
}

/// What a listener connects to and subscribes to.
#[derive(Debug)]
pub struct ListenerPlan {
    pub name: String,
    pub url: String,
    pub token: Option<String>,
    pub tls: bool,
    pub filter_name: String,
    pub account_include: Vec<String>,
    pub commitment: CommitmentLevel,
}

/// The stream is of a kind that cannot be read.
#[derive(Debug, Clone, Copy, PartialEq, Eq, Structural)]
pub struct UnsupportedStream;

impl UnsupportedStream {
    /// The message that reports the fault.
    pub fn message(&self) -> (text: &'static str)
        ensures
            text@ == "Only yellowstone gRPC endpoints are supported for now"@,
    {
        "Only yellowstone gRPC endpoints are supported for now"
    }
}

/// The token that is sent to a stream: the configured one, unless it is blank.
pub open spec fn effective_token(token: Option<String>) -> Option<Seq<char>> {
    match token {
        Some(t) => if crate::text::trimmed(t@).len() == 0 {
            None
        } else {
            Some(t@)
        },
        None => None,
    }
}

/// Plans a listener: transactions that touch the nonce account are subscribed to, at the configured
/// commitment; a blank token is left away, and only `https` addresses are connected to over TLS.
pub fn plan_listener(
    endpoint: &GrpcEndpoint,
    commitment: ArgsCommitment,
    observed_nonce_account: &str,
) -> (plan: Result<ListenerPlan, UnsupportedStream>)
    ensures
        match plan {
            Ok(p) => {
                &&& endpoint.kind == GrpcKind::Yellowstone
                &&& p.name@ == endpoint.name@
                &&& p.url@ == endpoint.url@
                &&& match p.token {
                    Some(t) => effective_token(endpoint.x_token) == Some(t@),
                    None => effective_token(endpoint.x_token) is None,
                }
                &&& p.tls == crate::text::has_prefix(endpoint.url@, "https"@)
                &&& p.filter_name@ == "nonce-filter"@
                &&& p.account_include@.len() == 1
                &&& p.account_include@[0]@ == observed_nonce_account@
                &&& p.commitment == crate::config::level_of(commitment)
            },
            Err(_) => endpoint.kind != GrpcKind::Yellowstone,
        },
{
    if endpoint.kind != GrpcKind::Yellowstone {
        return Err(UnsupportedStream);
    }
    let token = match &endpoint.x_token {
        Some(token) => if trim(token.as_str()).is_empty() {
            None
        } else {
            Some(token.clone())
        },
        None => None,
    };
    let mut account_include: Vec<String> = Vec::new();
    account_include.push(observed_nonce_account.to_owned());
    Ok(
        ListenerPlan {
            name: endpoint.name.clone(),
            url: endpoint.url.clone(),
            token,
            tls: starts_with(endpoint.url.as_str(), "https"),
            filter_name: "nonce-filter".to_owned(),
            account_include,
            commitment: CommitmentLevel::from(commitment),
        },
    )
}

/// The steps of setting a listener up.
#[derive(Debug, Clone, Copy, PartialEq, Eq, Structural)]
pub enum SetupStage {
    /// Make a client for the address.
    Build,
    /// Attach the token.
    Token,
    /// Configure TLS.
    Tls,
    /// Connect.
    Connect,
    /// Open the stream.
    Subscribe,
    /// Send the subscription.
    Request,
    /// Await the first message.
    Confirm,
}

/// Why a listener stopped.
#[derive(Debug, Clone, Copy, PartialEq, Eq, Structural)]
pub enum StopReason {
    Build,
    Token,
    Tls,
    Connect,
    Subscribe,
    Request,
    Confirm,
    ClosedUnconfirmed,
    Shutdown,
    ReceiverGone,
    PingReply,
    StreamError,
    StreamClosed,
}

/// The step that follows another in setting a listener up. Where there is no token, or no TLS, its
/// step is left away.
pub open spec fn stage_after(token: bool, tls: bool, stage: SetupStage) -> SetupStage {
    match stage {
        SetupStage::Build => if token {
            SetupStage::Token
        } else if tls {
            SetupStage::Tls
        } else {
            SetupStage::Connect
        },
        SetupStage::Token => if tls {
            SetupStage::Tls
        } else {
            SetupStage::Connect
        },
        SetupStage::Tls => SetupStage::Connect,
        SetupStage::Connect => SetupStage::Subscribe,
        SetupStage::Subscribe => SetupStage::Request,
        SetupStage::Request => SetupStage::Confirm,
        SetupStage::Confirm => SetupStage::Confirm,
    }
}

/// Why a listener stops whose step failed.
pub open spec fn stage_failure(stage: SetupStage) -> StopReason {
    match stage {
        SetupStage::Build => StopReason::Build,
        SetupStage::Token => StopReason::Token,
        SetupStage::Tls => StopReason::Tls,
        SetupStage::Connect => StopReason::Connect,
        SetupStage::Subscribe => StopReason::Subscribe,
        SetupStage::Request => StopReason::Request,
        SetupStage::Confirm => StopReason::Confirm,
    }
}

/// The step that follows another in setting a listener up, or why the listener stops.
pub fn setup_step(plan: &ListenerPlan, stage: SetupStage, ok: bool) -> (next: Result<
    SetupStage,
    StopReason,
>)
    ensures
        match next {
            Ok(following) => ok && following == stage_after(plan.token is Some, plan.tls, stage),
            Err(reason) => !ok && reason == stage_failure(stage),
        },
{
    if !ok {
        return Err(
            match stage {
                SetupStage::Build => StopReason::Build,
                SetupStage::Token => StopReason::Token,
                SetupStage::Tls => StopReason::Tls,
                SetupStage::Connect => StopReason::Connect,
                SetupStage::Subscribe => StopReason::Subscribe,
                SetupStage::Request => StopReason::Request,
                SetupStage::Confirm => StopReason::Confirm,
            },
        );
    }
    let connect = if plan.tls {
        SetupStage::Tls
    } else {
        SetupStage::Connect
    };
    Ok(
        match stage {
            SetupStage::Build => if plan.token.is_some() {
                SetupStage::Token
            } else {
                connect
            },
            SetupStage::Token => connect,
            SetupStage::Tls => SetupStage::Connect,
            SetupStage::Connect => SetupStage::Subscribe,
            SetupStage::Subscribe => SetupStage::Request,
            SetupStage::Request => SetupStage::Confirm,
            SetupStage::Confirm => SetupStage::Confirm,
        },
    )
}

/// What a message on the stream holds.
#[derive(Debug)]
pub enum StreamUpdate {
    /// Nothing.
    Empty,
    Transaction { update: TransactionUpdate },
    Ping,
    /// Anything else.
    Other,
}

/// What comes from the stream.
#[derive(Debug)]
pub enum StreamItem {
    Message { update: StreamUpdate },
    Error,
    Closed,
}

/// What to do after the first message: the listener runs, and is reported ready where the message
/// holds something; or it stops.
pub fn confirm_step(first: &StreamItem) -> (next: Result<bool, StopReason>)
    ensures
        match next {
            Ok(ready) => *first is Message && ready == !(first->update is Empty),
            Err(reason) => !(*first is Message) && reason == if *first is Error {
                StopReason::Confirm
            } else {
                StopReason::ClosedUnconfirmed
            },
        },
{
    match first {
        StreamItem::Message { update: StreamUpdate::Empty } => Ok(false),
        StreamItem::Message { .. } => Ok(true),
        StreamItem::Error => Err(StopReason::Confirm),
        StreamItem::Closed => Err(StopReason::ClosedUnconfirmed),
    }
}

/// What happens to a running listener.
#[derive(Debug)]
pub enum RunEvent {
    Shutdown,
    Item { item: StreamItem },
    /// A memo was handed on, or could not be.
    Forwarded { ok: bool },
    /// A ping was answered, or could not be.
    Answered { ok: bool },
}

/// What a running listener does next.
#[derive(Debug)]
pub enum RunAction {
    /// Await what comes next.
    Await,
    /// Hand on this memo.
    Forward { signature: String, memo: String },
    /// Answer a ping with this number.
    Answer { id: i32 },
    /// Stop.
    Stop { reason: StopReason },
}

/// Why an event stops a running listener, if it does.
pub open spec fn stop_of(event: RunEvent) -> Option<StopReason> {
    match event {
        RunEvent::Shutdown => Some(StopReason::Shutdown),
        RunEvent::Item { item: StreamItem::Message { .. } } => None,
        RunEvent::Item { item: StreamItem::Error } => Some(StopReason::StreamError),
        RunEvent::Item { item: StreamItem::Closed } => Some(StopReason::StreamClosed),
        RunEvent::Forwarded { ok } => if ok {
            None
        } else {
            Some(StopReason::ReceiverGone)
        },
        RunEvent::Answered { ok } => if ok {
            None
        } else {
            Some(StopReason::PingReply)
        },
    }
}

/// The memo that an event brings, with its signature.
pub open spec fn memo_of(event: RunEvent, program: Seq<u8>) -> Option<(Seq<char>, Seq<char>)> {
    match event {
        RunEvent::Item {
            item: StreamItem::Message { update: StreamUpdate::Transaction { update } },
        } => extracted(update, program),
        _ => None,
    }
}

/// Whether an event is a ping.
pub open spec fn is_ping(event: RunEvent) -> bool {
    event matches RunEvent::Item { item: StreamItem::Message { update: StreamUpdate::Ping } }
}

/// What a running listener does on an event: memos are handed on, pings answered, and it goes on
/// until it is told to stop, the stream ends, or it can neither hand on nor answer.
pub fn run_step(event: &RunEvent, memo_program: &Address) -> (action: RunAction)
    ensures
        match action {
            RunAction::Stop { reason } => stop_of(*event) == Some(reason),
            RunAction::Forward { signature, memo } => memo_of(*event, memo_program@) == Some(
                (signature@, memo@),
            ),
            RunAction::Answer { id } => is_ping(*event) && id == 1,
            RunAction::Await => {
                &&& stop_of(*event) is None
                &&& memo_of(*event, memo_program@) is None
                &&& !is_ping(*event)
            },
        },
{
    match event {
        RunEvent::Shutdown => RunAction::Stop { reason: StopReason::Shutdown },
        RunEvent::Item { item } => match item {
            StreamItem::Message { update } => match update {
                StreamUpdate::Transaction { update } => match extract_memo(update, memo_program) {
                    Some((signature, memo)) => RunAction::Forward { signature, memo },
                    None => RunAction::Await,
                },
                StreamUpdate::Ping => RunAction::Answer { id: 1 },
                StreamUpdate::Empty => RunAction::Await,
                StreamUpdate::Other => RunAction::Await,
            },
            StreamItem::Error => RunAction::Stop { reason: StopReason::StreamError },
            StreamItem::Closed => RunAction::Stop { reason: StopReason::StreamClosed },
        },
        RunEvent::Forwarded { ok } => if *ok {
            RunAction::Await
        } else {
            RunAction::Stop { reason: StopReason::ReceiverGone }
        },
        RunEvent::Answered { ok } => if *ok {
            RunAction::Await
        } else {
            RunAction::Stop { reason: StopReason::PingReply }
        },
    }
}

impl StopReason {
    /// The message that reports the end of a listener.
    pub open spec fn text(self) -> Seq<char> {
        match self {
            StopReason::Build => "Failed to build gRPC client"@,
            StopReason::Token => "Failed to attach x-token"@,
            StopReason::Tls => "Failed to set TLS config"@,
            StopReason::Connect => "Failed to connect to gRPC endpoint"@,
            StopReason::Subscribe => "Failed to subscribe"@,
            StopReason::Request => "Failed to send subscribe request"@,
            StopReason::Confirm => "Failed to confirm subscription"@,
            StopReason::ClosedUnconfirmed => "Stream closed before subscription confirmed"@,
            StopReason::Shutdown => "Stopping gRPC listener (shutdown)"@,
            StopReason::ReceiverGone => "Receiver dropped; stopping listener"@,
            StopReason::PingReply => "Ping reply failed"@,
            StopReason::StreamError => "Stream error"@,
            StopReason::StreamClosed => "Stream closed by server"@,
        }
    }

    /// The message that reports the end of a listener.
    pub fn message(&self) -> (text: &'static str)
        ensures
            text@ == self.text(),
    {
        match self {
            StopReason::Build => "Failed to build gRPC client",
            StopReason::Token => "Failed to attach x-token",
            StopReason::Tls => "Failed to set TLS config",
            StopReason::Connect => "Failed to connect to gRPC endpoint",
            StopReason::Subscribe => "Failed to subscribe",
            StopReason::Request => "Failed to send subscribe request",
            StopReason::Confirm => "Failed to confirm subscription",
            StopReason::ClosedUnconfirmed => "Stream closed before subscription confirmed",
            StopReason::Shutdown => "Stopping gRPC listener (shutdown)",
            StopReason::ReceiverGone => "Receiver dropped; stopping listener",
            StopReason::PingReply => "Ping reply failed",
            StopReason::StreamError => "Stream error",
            StopReason::StreamClosed => "Stream closed by server",
        }
    }
}

/// The step that is reached after `n` others that all went well.
pub open spec fn stage_at(token: bool, tls: bool, n: nat) -> SetupStage
    decreases n,
{
    if n == 0 {
        SetupStage::Build
    } else {
        stage_after(token, tls, stage_at(token, tls, (n - 1) as nat))
    }
}

/// Setting a listener up ends: after at most six steps that went well it awaits the first message.
/// The token is attached exactly where there is one, and TLS configured exactly where it is used.
pub proof fn setup_ends(token: bool, tls: bool)
    ensures
        forall|n: nat| n >= 6 ==> #[trigger] stage_at(token, tls, n) == SetupStage::Confirm,
        (exists|n: nat| #[trigger] stage_at(token, tls, n) == SetupStage::Token) <==> token,
        (exists|n: nat| #[trigger] stage_at(token, tls, n) == SetupStage::Tls) <==> tls,
{
    reveal_with_fuel(stage_at, 7);
    assert forall|n: nat| n >= 6 implies #[trigger] stage_at(token, tls, n)
        == SetupStage::Confirm by {
        lemma_confirmed(token, tls, n);
    }
    assert(stage_at(token, tls, 1) == stage_after(token, tls, SetupStage::Build));
    assert(stage_at(token, tls, 2) == stage_after(token, tls, stage_at(token, tls, 1)));
    assert forall|n: nat| #[trigger] stage_at(token, tls, n) == SetupStage::Token implies token by {
        lemma_stages(token, tls, n);
    }
    assert forall|n: nat| #[trigger] stage_at(token, tls, n) == SetupStage::Tls implies tls by {
        lemma_stages(token, tls, n);
    }
}

proof fn lemma_confirmed(token: bool, tls: bool, n: nat)
    requires
        n >= 6,
    ensures
        stage_at(token, tls, n) == SetupStage::Confirm,
    decreases n,
{
    if n > 6 {
        lemma_confirmed(token, tls, (n - 1) as nat);
    } else {
        reveal_with_fuel(stage_at, 7);
    }
}

proof fn lemma_stages(token: bool, tls: bool, n: nat)
    ensures
        stage_at(token, tls, n) == SetupStage::Token ==> token,
        stage_at(token, tls, n) == SetupStage::Tls ==> tls,
    decreases n,
{
    if n > 0 {
        lemma_stages(token, tls, (n - 1) as nat);
    }
}

/// What is extracted of a transaction, in plain words. There must be a transaction with a signature
/// and a message. The memo is the text of the first instruction whose program is the memo program
/// and whose data are UTF-8; the signature is the first one, in Base58. Where there is no such
/// instruction nothing is extracted.
pub proof fn first_memo_is_extracted(update: TransactionUpdate, program: Seq<u8>)
    ensures
        ({
            let found = extracted(update, program);
            let complete = update.transaction is Some && update.transaction->0.transaction is Some
                && update.transaction->0.transaction->0.signatures@.len() > 0
                && update.transaction->0.transaction->0.message is Some;
            let transaction = update.transaction->0.transaction->0;
            let message = transaction.message->0;
            let calls = message.instructions@;
            let keys = message.account_keys@;
            &&& !complete ==> found is None
            &&& found matches Some((signature, memo)) ==> {
                &&& complete
                &&& signature == crate::codec::base58_encoded(transaction.signatures@[0]@)
                &&& exists|i: int|
                    {
                        &&& 0 <= i < calls.len()
                        &&& (#[trigger] calls[i]).program_id_index < keys.len()
                        &&& keys[calls[i].program_id_index as int]@ == program
                        &&& calls[i].data@ == vstd::utf8::encode_utf8(memo)
                        &&& forall|j: int|
                            0 <= j < i ==> {
                                ||| (#[trigger] calls[j]).program_id_index >= keys.len()
                                ||| keys[calls[j].program_id_index as int]@ != program
                                ||| !vstd::utf8::valid_utf8(calls[j].data@)
                            }
                    }
            }
            &&& complete && found is None ==> forall|j: int|
                0 <= j < calls.len() ==> {
                    ||| (#[trigger] calls[j]).program_id_index >= keys.len()
                    ||| keys[calls[j].program_id_index as int]@ != program
                    ||| !vstd::utf8::valid_utf8(calls[j].data@)
                }
        }),
{
    if let Some((signature, message)) = observed(update) {
        let calls = message.instructions@;
        let keys = message.account_keys@;
        lemma_first_memo(message, program, 0);
        match memo_from(message, program, 0) {
            Some(memo) => {
                let i = choose|i: int|
                    {
                        &&& 0 <= i < message.instructions@.len()
                        &&& #[trigger] carries_memo(message, program, i)
                        &&& message.instructions@[i].data@ == vstd::utf8::encode_utf8(memo)
                        &&& forall|j: int|
                            0 <= j < i ==> !#[trigger] carries_memo(message, program, j)
                    };
                assert(calls[i].program_id_index < keys.len());
                assert forall|j: int| 0 <= j < i implies {
                    ||| (#[trigger] calls[j]).program_id_index >= keys.len()
                    ||| keys[calls[j].program_id_index as int]@ != program
                    ||| !vstd::utf8::valid_utf8(calls[j].data@)
                } by {
                    assert(!carries_memo(message, program, j));
                }
            },
            None => {
                assert forall|j: int| 0 <= j < calls.len() implies {
                    ||| (#[trigger] calls[j]).program_id_index >= keys.len()
                    ||| keys[calls[j].program_id_index as int]@ != program
                    ||| !vstd::utf8::valid_utf8(calls[j].data@)
                } by {
                    assert(!carries_memo(message, program, j));
                }
            },
        }
    }
}

proof fn lemma_first_memo(message: ObservedMessage, program: Seq<u8>, from: int)
    requires
        0 <= from <= message.instructions@.len(),
    ensures
        match memo_from(message, program, from) {
            Some(memo) => exists|i: int|
                {
                    &&& from <= i < message.instructions@.len()
                    &&& #[trigger] carries_memo(message, program, i)
                    &&& message.instructions@[i].data@ == vstd::utf8::encode_utf8(memo)
                    &&& forall|j: int| from <= j < i ==> !#[trigger] carries_memo(message, program, j)
                },
            None => forall|j: int|
                from <= j < message.instructions@.len() ==> !#[trigger] carries_memo(
                    message,
                    program,
                    j,
                ),
        },
    decreases message.instructions@.len() - from,
{
    if from < message.instructions@.len() {
        if carries_memo(message, program, from) {
            vstd::utf8::decode_utf8_encode_utf8(message.instructions@[from].data@);
        } else {
            lemma_first_memo(message, program, from + 1);
        }
    }
}

/// A token is sent just as it is configured, unless it is white space only.
pub proof fn tokens_are_sent_as_they_are(token: String)
    ensures
        effective_token(None) is None,
        effective_token(Some(token)) is None <==> forall|i: int|
            0 <= i < token@.len() ==> crate::text::is_white_space(#[trigger] token@[i]),
        effective_token(Some(token)) matches Some(sent) ==> sent == token@,
{
    let (before, after) = crate::text::trimming_takes_white_space_only(token@);
    let middle = crate::text::trimmed(token@);
    if middle.len() > 0 {
        assert(token@[before.len() as int] == middle[0]);
    } else {
        assert forall|i: int| 0 <= i < token@.len() implies crate::text::is_white_space(
            #[trigger] token@[i],
        ) by {
            if i < before.len() {
                assert(token@[i] == before[i]);
            } else {
                assert(token@[i] == after[i - before.len()]);
            }
        }
    }
}

/// The steps of setting a listener up follow each other in one order; the token's and TLS's are
/// gone through exactly where there is a token, and where TLS is used.
pub proof fn setup_in_order(token: bool, tls: bool)
    ensures
        token ==> stage_after(token, tls, SetupStage::Build) == SetupStage::Token,
        !token && tls ==> stage_after(token, tls, SetupStage::Build) == SetupStage::Tls,
        !token && !tls ==> stage_after(token, tls, SetupStage::Build) == SetupStage::Connect,
        tls ==> stage_after(token, tls, SetupStage::Token) == SetupStage::Tls,
        !tls ==> stage_after(token, tls, SetupStage::Token) == SetupStage::Connect,
        stage_after(token, tls, SetupStage::Tls) == SetupStage::Connect,
        stage_after(token, tls, SetupStage::Connect) == SetupStage::Subscribe,
        stage_after(token, tls, SetupStage::Subscribe) == SetupStage::Request,
        stage_after(token, tls, SetupStage::Request) == SetupStage::Confirm,
{
}

/// What ends a running listener and what does not; what is handed on; and what is answered.
pub proof fn running_in_words(program: Seq<u8>, event: RunEvent)
    ensures
        stop_of(RunEvent::Shutdown) == Some(StopReason::Shutdown),
        stop_of(RunEvent::Item { item: StreamItem::Error }) == Some(StopReason::StreamError),
        stop_of(RunEvent::Item { item: StreamItem::Closed }) == Some(StopReason::StreamClosed),
        stop_of(RunEvent::Forwarded { ok: false }) == Some(StopReason::ReceiverGone),
        stop_of(RunEvent::Answered { ok: false }) == Some(StopReason::PingReply),
        stop_of(RunEvent::Forwarded { ok: true }) is None,
        stop_of(RunEvent::Answered { ok: true }) is None,
        event matches RunEvent::Item { item: StreamItem::Message { update: message } } ==> {
            &&& stop_of(event) is None
            &&& is_ping(event) <==> message is Ping
            &&& memo_of(event, program) == match message {
                StreamUpdate::Transaction { update: seen } => extracted(seen, program),
                _ => None,
            }
        },
        !(event is Item) ==> !is_ping(event) && memo_of(event, program) is None,
        stage_failure(SetupStage::Build) == StopReason::Build,
        stage_failure(SetupStage::Token) == StopReason::Token,
        stage_failure(SetupStage::Tls) == StopReason::Tls,
        stage_failure(SetupStage::Connect) == StopReason::Connect,
        stage_failure(SetupStage::Subscribe) == StopReason::Subscribe,
        stage_failure(SetupStage::Request) == StopReason::Request,
        stage_failure(SetupStage::Confirm) == StopReason::Confirm,
{
}

} // verus!
