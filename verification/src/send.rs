//! Sending one transaction of a round through one endpoint.

use crate::book::LandingBook;
use crate::chain::{build_instructions, Address, BuildFault, Instruction};
use crate::config::{ArgsCommitment, CommitmentLevel, Endpoint, EndpointKind};
use crate::keys::{sign_transaction, SignedTransaction, SigningKey};
use solana_signature::Signature;
use vstd::prelude::*;
use vstd::string::*;

verus! {

/// Calls `Signature::from` and `to_string`. Claimed is that a signature's text is the Base58 text of
/// its bytes.
#[verifier::external_body]
fn signature_to_string(signature: &[u8; 64]) -> (text: String)
    ensures
        text@ == crate::codec::base58_encoded(signature@),
{
    Signature::from(*signature).to_string()
}

/// How a transaction goes out.
#[derive(Debug, Clone, Copy, PartialEq, Eq, Structural)]
pub enum Route {
    /// By a call of a node.
    Rpc,
    /// Over the connection to a Soyas endpoint.
    Soyas,
}

/// The way to an endpoint.
pub open spec fn route_of(kind: EndpointKind) -> Route {
    if kind == EndpointKind::Soyas {
        Route::Soyas
    } else {
        Route::Rpc
    }
}

/// Why a transaction is not sent.
#[derive(Debug)]
pub enum SendFault {
    /// It cannot be built.
    Build { fault: BuildFault },
    /// Its memo is too long for a transaction.
    Oversized,
    /// There is no connection to the Soyas endpoint.
    NoClient { name: String },
}

impl SendFault {
    /// The message that reports the fault.
    pub open spec fn text(self) -> Seq<char> {
        match self {
            SendFault::Build { fault } => fault.text(),
            SendFault::Oversized => "Memo does not fit into a transaction"@,
            SendFault::NoClient { name } => "Soyas client not initialized for "@ + name@,
        }
    }

    /// The message that reports the fault.
    pub fn message(&self) -> (text: String)
        ensures
            text@ == self.text(),
    {
        match self {
            SendFault::Build { fault } => fault.message(),
            SendFault::Oversized => "Memo does not fit into a transaction".to_owned(),
            SendFault::NoClient { name } => {
                let mut text = "Soyas client not initialized for ".to_owned();
                text.append(name.as_str());
                text
            },
        }
    }
}

/// What to do about one endpoint in a round.
#[derive(Debug)]
pub enum SendStep {
    /// Nothing: the run is being shut down.
    Skip,
    /// Send this transaction.
    Send { transaction: SignedTransaction, route: Route },
    /// Nothing: there is something wrong.
    Fail { fault: SendFault },
}

/// Whether the data of all instructions fit into a transaction.
fn data_fit(instructions: &Vec<Instruction>) -> (fit: bool)
    ensures
        fit <==> forall|i: int|
            0 <= i < instructions@.len() ==> (#[trigger] instructions@[i]).data@.len() <= 65535,
{
    let mut i: usize = 0;
    while i < instructions.len()
        invariant
            i <= instructions.len(),
            forall|j: int|
                0 <= j < i ==> (#[trigger] instructions@[j]).data@.len() <= 65535,
        decreases instructions.len() - i,
    {
        if instructions[i].data.len() > 65535 {
            return false;
        }
        i += 1;
    }
    true
}

/// The memo of the transaction that goes through an endpoint.
pub open spec fn memo_for(endpoint: Endpoint, now: Seq<char>, count: u64) -> Seq<u8> {
    crate::chain::memo_bytes(endpoint.name@, now, count)
}

/// Whether a fault is what keeps a transaction from being sent through an endpoint.
pub open spec fn prevents(
    endpoint: Endpoint,
    connected: bool,
    memo: Seq<u8>,
    fault: SendFault,
) -> bool {
    match fault {
        SendFault::Build { fault } => {
            &&& !crate::chain::buildable(endpoint)
            &&& crate::chain::faulty(endpoint, fault)
        },
        SendFault::Oversized => {
            &&& crate::chain::buildable(endpoint)
            &&& memo.len() > 65535
        },
        SendFault::NoClient { name } => {
            &&& crate::chain::buildable(endpoint)
            &&& memo.len() <= 65535
            &&& endpoint.kind == EndpointKind::Soyas
            &&& !connected
            &&& name@ == endpoint.name@
        },
    }
}

/// Whether a transaction can be sent through an endpoint.
pub open spec fn sendable(endpoint: Endpoint, connected: bool, memo: Seq<u8>) -> bool {
    &&& crate::chain::buildable(endpoint)
    &&& memo.len() <= 65535
    &&& endpoint.kind == EndpointKind::Soyas ==> connected
}

/// Makes the transaction that goes through an endpoint. `connected` says whether there is a
/// connection to it, which only a Soyas endpoint needs; `now` and `count` make its memo random. A
/// memo is never too long where the endpoint's name has at most 65490 bytes.
pub fn prepare_send(
    shutdown: bool,
    endpoint: &Endpoint,
    connected: bool,
    key: &SigningKey,
    nonce_account: &Address,
    nonce_hash: &[u8; 32],
    prio_fee: Option<u64>,
    cu_limit: u32,
    now: &str,
    count: u64,
) -> (step: SendStep)
    ensures
        ({
            let memo = memo_for(*endpoint, now@, count);
            match step {
                SendStep::Skip => shutdown,
                SendStep::Send { transaction, route } => {
                    &&& !shutdown
                    &&& sendable(*endpoint, connected, memo)
                    &&& route == route_of(endpoint.kind)
                    &&& (transaction.signature@, transaction.wire@)
                        == crate::keys::signed_transaction(
                        key@,
                        crate::chain::endpoint_models(
                            *endpoint,
                            nonce_account@,
                            key.public(),
                            memo,
                            prio_fee,
                            cu_limit,
                        ),
                        nonce_hash@,
                    )
                    &&& transaction.signature@.len() == 64
                    &&& transaction.wire@.len() > 65
                    &&& transaction.wire@[0] == 1
                    &&& transaction.wire@.subrange(1, 65) == transaction.signature@
                    &&& crate::payload::tail_is_sound(endpoint.name@, now@, count)
                },
                SendStep::Fail { fault } => {
                    &&& !shutdown
                    &&& !sendable(*endpoint, connected, memo)
                    &&& prevents(*endpoint, connected, memo, fault)
                    &&& fault is Oversized ==> vstd::utf8::encode_utf8(endpoint.name@).len()
                        > 65535 - 45
                },
            }
        }),
        !shutdown ==> crate::chain::addresses_are_sound(*endpoint),
{
    if shutdown {
        return SendStep::Skip;
    }
    let authority = key.pubkey();
    let instructions = match build_instructions(
        endpoint,
        nonce_account,
        &authority,
        endpoint.name.as_str(),
        prio_fee,
        cu_limit,
        now,
        count,
    ) {
        Ok(instructions) => instructions,
        Err(fault) => {
            return SendStep::Fail { fault: SendFault::Build { fault } };
        },
    };
    let ghost memo = memo_for(*endpoint, now@, count);
    let ghost models = crate::chain::models(instructions@);
    proof {
        let program = crate::chain::parsed_address(crate::chain::memo_program_text())->Ok_0;
        let tip = crate::chain::paid_tip(*endpoint);
        crate::keys::transaction_is_signable(
            nonce_account@,
            authority@,
            prio_fee,
            cu_limit,
            program,
            memo,
            tip,
        );
        crate::chain::transaction_shape(
            nonce_account@,
            authority@,
            prio_fee,
            cu_limit,
            program,
            memo,
            tip,
        );
    }
    if !data_fit(&instructions) {
        proof {
            let i = choose|i: int|
                0 <= i < instructions@.len() && (#[trigger] instructions@[i]).data@.len() > 65535;
            assert(models[i].data.len() > 65535);
            crate::payload::memo_is_short(endpoint.name@, now@, count);
        }
        return SendStep::Fail { fault: SendFault::Oversized };
    }
    proof {
        let at: int = if prio_fee is Some {
            3
        } else {
            1
        };
        assert(models[at].data == memo);
        assert(instructions@[at].data@ == memo);
    }
    if endpoint.kind == EndpointKind::Soyas && !connected {
        return SendStep::Fail { fault: SendFault::NoClient { name: endpoint.name.clone() } };
    }
    let route = if endpoint.kind == EndpointKind::Soyas {
        Route::Soyas
    } else {
        Route::Rpc
    };
    let transaction = sign_transaction(key, &instructions, nonce_hash);
    SendStep::Send { transaction, route }
}

/// What precedes the cause in the report of a send that failed.
pub open spec fn failure_prefix(route: Route) -> Seq<char> {
    match route {
        Route::Rpc => "RPC send failure: "@,
        Route::Soyas => "Soyas send failure: "@,
    }
}

/// The message that reports a send that failed.
pub fn failure_message(route: Route, cause: &str) -> (text: String)
    ensures
        text@ == failure_prefix(route) + cause@,
{
    let mut text = match route {
        Route::Rpc => "RPC send failure: ".to_owned(),
        Route::Soyas => "Soyas send failure: ".to_owned(),
    };
    text.append(cause);
    text
}

/// How a transaction is handed to a node.
#[derive(Debug, Clone, Copy, PartialEq, Eq, Structural)]
pub struct NodeConfig {
    pub skip_preflight: bool,
    pub preflight_commitment: CommitmentLevel,
    pub max_retries: usize,
}

/// How a transaction is handed to a node: without a simulation before, and without retries.
pub fn node_config(commitment: CommitmentLevel) -> (config: NodeConfig)
    ensures
        config == (NodeConfig {
            skip_preflight: true,
            preflight_commitment: commitment,
            max_retries: 0,
        }),
{
    NodeConfig { skip_preflight: true, preflight_commitment: commitment, max_retries: 0 }
}

/// The commitment level of nodes that a configured commitment stands for.
pub fn commitment_from_args(commitment: ArgsCommitment) -> (level: CommitmentLevel)
    ensures
        level == crate::config::level_of(commitment),
{
    match commitment {
        ArgsCommitment::Processed => CommitmentLevel::Processed,
        ArgsCommitment::Confirmed => CommitmentLevel::Confirmed,
        ArgsCommitment::Finalized => CommitmentLevel::Finalized,
    }
}

/// Records a transaction that an endpoint took, `sent_elapsed` nanoseconds after the start of the
/// run. It is found again under the Base58 text of its signature.
pub fn record_sent<W, N>(
    book: &mut LandingBook<W, N>,
    endpoint: &Endpoint,
    signature: &[u8; 64],
    sent_elapsed: u64,
    round_id: &String,
    waiter: W,
    fresh: N,
)
    requires
        old(book).well_formed(),
    ensures
        final(book).well_formed(),
        final(book)@ == old(book)@.after_send(
            crate::codec::base58_encoded(signature@),
            (crate::book::SendModel {
                provider: endpoint.name@,
                sent_elapsed,
                round_id: round_id@,
            }),
            waiter,
            fresh,
        ),
{
    book.record_send(
        signature_to_string(signature),
        endpoint.name.clone(),
        sent_elapsed,
        round_id.clone(),
        waiter,
        fresh,
    );
}

/// What came of handing a transaction to an endpoint.
#[derive(Debug)]
pub enum SendOutcome {
    /// The endpoint took it, under this signature.
    Taken { signature: [u8; 64] },
    /// It could not be handed over.
    Failed { cause: String },
}

/// What to do after a transaction was handed to an endpoint.
#[derive(Debug)]
pub enum AfterSend {
    /// Wait for the landing, so many milliseconds at most.
    Wait { ms: u64 },
    /// Report that the transaction was not sent, and be done.
    Report { text: String },
}

/// Settles what came of handing a transaction to an endpoint. One that was taken is recorded, and
/// waited for; one that failed is reported only: it leaves the record as it is and is not waited for.
pub fn settle_send<W, N>(
    book: &mut LandingBook<W, N>,
    endpoint: &Endpoint,
    route: Route,
    outcome: SendOutcome,
    sent_elapsed: u64,
    round_id: &String,
    waiter: W,
    fresh: N,
    landing_wait_ms: u64,
) -> (after: AfterSend)
    requires
        old(book).well_formed(),
    ensures
        final(book).well_formed(),
        match outcome {
            SendOutcome::Taken { signature } => {
                &&& after == (AfterSend::Wait { ms: landing_wait_ms })
                &&& final(book)@ == old(book)@.after_send(
                    crate::codec::base58_encoded(signature@),
                    (crate::book::SendModel {
                        provider: endpoint.name@,
                        sent_elapsed,
                        round_id: round_id@,
                    }),
                    waiter,
                    fresh,
                )
            },
            SendOutcome::Failed { cause } => {
                &&& after matches AfterSend::Report { text }
                &&& text@ == failure_prefix(route) + cause@
                &&& final(book)@ == old(book)@
            },
        },
{
    match outcome {
        SendOutcome::Taken { signature } => {
            record_sent(book, endpoint, &signature, sent_elapsed, round_id, waiter, fresh);
            AfterSend::Wait { ms: landing_wait_ms }
        },
        SendOutcome::Failed { cause } => AfterSend::Report {
            text: failure_message(route, cause.as_str()),
        },
    }
}

/// What a send that waited was told.
#[derive(Debug, Clone, Copy, PartialEq, Eq, Structural)]
pub enum WaitOutcome {
    /// It landed itself.
    SelfLanded,
    /// Another send of its round landed.
    OtherLanded,
}

/// What ends the wait of a send.
#[derive(Debug, Clone, Copy, PartialEq, Eq, Structural)]
pub enum WaitEvent {
    /// Its own waiter was told, or is gone.
    Acknowledged,
    /// The waiter of its round was told, or (where not `ok`) is gone.
    RoundChanged { ok: bool },
    /// The time is over.
    Elapsed,
}

/// How the wait of a send ended.
#[derive(Debug, Clone, Copy, PartialEq, Eq, Structural)]
pub enum Waited {
    Told { outcome: WaitOutcome },
    Dropped,
    TimedOut,
}

/// How the wait of a send ended.
pub fn wait_over(event: WaitEvent) -> (waited: Waited)
    ensures
        waited == match event {
            WaitEvent::Acknowledged => Waited::Told { outcome: WaitOutcome::SelfLanded },
            WaitEvent::RoundChanged { ok } => if ok {
                Waited::Told { outcome: WaitOutcome::OtherLanded }
            } else {
                Waited::Dropped
            },
            WaitEvent::Elapsed => Waited::TimedOut,
        },
{
    match event {
        WaitEvent::Acknowledged => Waited::Told { outcome: WaitOutcome::SelfLanded },
        WaitEvent::RoundChanged { ok: true } => Waited::Told { outcome: WaitOutcome::OtherLanded },
        WaitEvent::RoundChanged { ok: false } => Waited::Dropped,
        WaitEvent::Elapsed => Waited::TimedOut,
    }
}

/// What is reported of the end of a wait.
#[derive(Debug, Clone, Copy)]
pub enum Notice {
    Nothing,
    Info { text: &'static str },
    Warning { text: &'static str },
}

impl Waited {
    /// What is reported of the end of a wait: nothing where the send itself landed, a warning where
    /// nothing is known to have landed.
    pub fn notice(&self) -> (notice: Notice)
        ensures
            match notice {
                Notice::Nothing => *self == (Waited::Told { outcome: WaitOutcome::SelfLanded }),
                Notice::Info { text } => {
                    &&& *self == (Waited::Told { outcome: WaitOutcome::OtherLanded })
                    &&& text@ == "Round landed by another endpoint; skipping wait"@
                },
                Notice::Warning { text } => match *self {
                    Waited::Told { .. } => false,
                    Waited::Dropped => text@ == "Landing waiter dropped before completion"@,
                    Waited::TimedOut => text@ == "Timed out waiting for landing; continuing"@,
                },
            },
    {
        match self {
            Waited::Told { outcome: WaitOutcome::SelfLanded } => Notice::Nothing,
            Waited::Told { outcome: WaitOutcome::OtherLanded } => Notice::Info {
                text: "Round landed by another endpoint; skipping wait",
            },
            Waited::Dropped => Notice::Warning { text: "Landing waiter dropped before completion" },
            Waited::TimedOut => Notice::Warning {
                text: "Timed out waiting for landing; continuing",
            },
        }
    }
}

/// Whether the stream shows a transaction with a given signature that calls the same programs with
/// the same data as some instructions.
pub open spec fn shows(
    update: crate::listener::TransactionUpdate,
    signature: Seq<u8>,
    instructions: Seq<crate::chain::InstructionModel>,
) -> bool {
    match crate::listener::observed(update) {
        Some((first, message)) => {
            &&& first == signature
            &&& message.instructions@.len() == instructions.len()
            &&& forall|i: int|
                0 <= i < instructions.len() ==> {
                    let call = #[trigger] message.instructions@[i];
                    &&& call.program_id_index < message.account_keys@.len()
                    &&& message.account_keys@[call.program_id_index as int]@
                        == instructions[i].program_id
                    &&& call.data@ == instructions[i].data
                }
        },
        None => false,
    }
}

/// A transaction that was made for an endpoint, sent, recorded and then shown by the stream lands:
/// what is extracted of it is the signature it is recorded under and a memo that closes the record
/// in favour of the endpoint. The endpoint's name must hold no bar, and the memo program be neither
/// of the programs that the other instructions call.
pub proof fn prepared_transaction_lands<W, N>(
    book: crate::book::BookModel<W, N>,
    endpoint: Endpoint,
    keypair: Seq<u8>,
    nonce: Seq<u8>,
    nonce_hash: Seq<u8>,
    prio_fee: Option<u64>,
    cu_limit: u32,
    now: Seq<char>,
    count: u64,
    update: crate::listener::TransactionUpdate,
    sent_elapsed: u64,
    round_id: Seq<char>,
    waiter: W,
    fresh: N,
    seen: u64,
)
    requires
        !endpoint.name@.contains('|'),
        crate::chain::buildable(endpoint),
        ({
            let program = crate::chain::parsed_address(crate::chain::memo_program_text())->Ok_0;
            &&& program != crate::chain::system_program()
            &&& program != crate::chain::compute_budget_program()
        }),
        ({
            let models = crate::chain::endpoint_models(
                endpoint,
                nonce,
                keypair.subrange(32, 64),
                memo_for(endpoint, now, count),
                prio_fee,
                cu_limit,
            );
            shows(
                update,
                crate::keys::signed_transaction(keypair, models, nonce_hash).0,
                models,
            )
        }),
    ensures
        ({
            let program = crate::chain::parsed_address(crate::chain::memo_program_text())->Ok_0;
            let models = crate::chain::endpoint_models(
                endpoint,
                nonce,
                keypair.subrange(32, 64),
                memo_for(endpoint, now, count),
                prio_fee,
                cu_limit,
            );
            let signature = crate::codec::base58_encoded(
                crate::keys::signed_transaction(keypair, models, nonce_hash).0,
            );
            let send = crate::book::SendModel { provider: endpoint.name@, sent_elapsed, round_id };
            let sent = book.after_send(signature, send, waiter, fresh);
            &&& crate::listener::extracted(update, program) matches Some((found, memo))
            &&& found == signature
            &&& sent.lands(found, memo)
            &&& sent.after_landing(found, memo, seen).won(endpoint.name@) == book.won(
                endpoint.name@,
            ).after(crate::book::latency_of(sent_elapsed, seen))
            &&& sent.after_landing(found, memo, seen).landed_rounds.contains(round_id)
        }),
{
    let program = crate::chain::parsed_address(crate::chain::memo_program_text())->Ok_0;
    let tip = crate::chain::paid_tip(endpoint);
    let memo = memo_for(endpoint, now, count);
    let authority = keypair.subrange(32, 64);
    let models = crate::chain::endpoint_models(
        endpoint,
        nonce,
        authority,
        memo,
        prio_fee,
        cu_limit,
    );
    let at: int = if prio_fee is Some {
        3
    } else {
        1
    };
    let tail = crate::payload::payload_tail(endpoint.name@, now, count);
    let text = crate::payload::memo_text(endpoint.name@, tail);
    let send = crate::book::SendModel { provider: endpoint.name@, sent_elapsed, round_id };
    crate::chain::transaction_shape(nonce, authority, prio_fee, cu_limit, program, memo, tip);
    if let Some((first, message)) = crate::listener::observed(update) {
        assert forall|i: int| 0 <= i < at implies !#[trigger] crate::listener::carries_memo(
            message,
            program,
            i,
        ) by {
            let call = message.instructions@[i];
            assert(models[i].program_id != program);
        }
        let call = message.instructions@[at];
        assert(models[at].data == memo);
        assert(crate::listener::shows_memo(update, program, at, endpoint.name@, tail));
        crate::listener::sent_memo_is_extracted(update, program, at, endpoint.name@, tail);
        crate::payload::memo_names_its_provider(endpoint.name@, tail);
        crate::book::sent_memo_lands(
            book,
            crate::codec::base58_encoded(first),
            send,
            waiter,
            fresh,
            text,
            seen,
        );
    }
}

/// When a transaction is not sent through an endpoint, and why: it cannot be built, or else its memo
/// is longer than 65535 bytes, or else the endpoint is a Soyas endpoint without a connection.
pub proof fn reasons_not_to_send(
    endpoint: Endpoint,
    connected: bool,
    memo: Seq<u8>,
    fault: SendFault,
)
    ensures
        ({
            let built = crate::chain::buildable(endpoint);
            let unconnected = endpoint.kind == EndpointKind::Soyas && !connected;
            &&& sendable(endpoint, connected, memo) <==> built && memo.len() <= 65535 && !unconnected
            &&& prevents(endpoint, connected, memo, fault) <==> match fault {
                SendFault::Build { fault } => !built && crate::chain::faulty(endpoint, fault),
                SendFault::Oversized => built && memo.len() > 65535,
                SendFault::NoClient { name } => built && memo.len() <= 65535 && unconnected && name@
                    == endpoint.name@,
            }
        }),
{
}

/// The memo of the transaction for an endpoint is made for the endpoint's name; Soyas endpoints, and
/// no others, are sent to over their connection; and what is said of each fault and failure.
pub proof fn sends_in_words(endpoint: Endpoint, now: Seq<char>, count: u64, name: String)
    ensures
        memo_for(endpoint, now, count) == vstd::utf8::encode_utf8(
            endpoint.name@ + seq!['|'] + crate::codec::base58_encoded(
                crate::codec::blake3_digest(
                    vstd::utf8::encode_utf8(
                        endpoint.name@ + seq!['|'] + now + seq!['|'] + crate::text::decimal_text(
                            count as nat,
                        ),
                    ),
                ),
            ),
        ),
        route_of(EndpointKind::Rpc) == Route::Rpc,
        route_of(EndpointKind::Custom) == Route::Rpc,
        route_of(EndpointKind::Soyas) == Route::Soyas,
        (SendFault::NoClient { name }).text() == "Soyas client not initialized for "@ + name@,
        SendFault::Oversized.text() == "Memo does not fit into a transaction"@,
        failure_prefix(Route::Rpc) == "RPC send failure: "@,
        failure_prefix(Route::Soyas) == "Soyas send failure: "@,
{
    crate::chain::memo_is_text_and_hash(endpoint.name@, now, count);
}

/// A fault of building is reported in its own words.
pub proof fn building_faults_are_passed_on(fault: BuildFault)
    ensures
        (SendFault::Build { fault }).text() == fault.text(),
{
}

} // verus!
