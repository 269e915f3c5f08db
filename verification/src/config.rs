//! The configuration of a benchmark run and the rules it has to meet.

use vstd::prelude::*;
use vstd::string::*;

verus! {

/// A whole configuration file.
#[derive(Debug)]
pub struct ConfigToml {
    pub config: Config,
    pub grpc: GrpcEndpoint,
    pub endpoint: Vec<Endpoint>,
}

/// The settings of the run itself.
///
/// `prio_fee` is the price of a compute unit in micro-lamports. `None` stands for a fee that is
/// not positive, for which no compute-budget instruction is sent.
#[derive(Debug, Clone)]
pub struct Config {
    pub utility_rpc: String,
    pub transactions: usize,
    pub delay_ms: u64,
    pub commitment: ArgsCommitment,
    pub nonce_account: String,
    pub private_key: String,
    pub landing_grace_ms: u64,
    pub prio_fee: Option<u64>,
    pub compute_unit_limit: u32,
}

/// The stream that landings are observed on.
#[derive(Debug, Clone)]
pub struct GrpcEndpoint {
    pub name: String,
    pub url: String,
    pub x_token: Option<String>,
    pub kind: GrpcKind,
}

/// An endpoint that transactions are sent to.
#[derive(Debug, Clone)]
pub struct Endpoint {
    pub name: String,
    pub url: String,
    pub kind: EndpointKind,
    pub tip_lamports: Option<u64>,
    pub tip_wallet: Option<String>,
    pub api_key: Option<String>,
}

/// How an endpoint takes transactions.
#[derive(Debug, Clone, Copy, PartialEq, Eq, Structural)]
pub enum EndpointKind {
    Rpc,
    Custom,
    Soyas,
}

/// How a stream is read.
#[derive(Debug, Clone, Copy, PartialEq, Eq, Structural)]
pub enum GrpcKind {
    Yellowstone,
}

/// The commitment that landings and nonces are read at.
#[derive(Debug, Clone, Copy, PartialEq, Eq, Structural)]
pub enum ArgsCommitment {
    Processed,
    Confirmed,
    Finalized,
}

/// The commitment levels of the stream's protocol.
#[derive(Debug, Clone, Copy, PartialEq, Eq, Structural)]
pub enum CommitmentLevel {
    Processed,
    Confirmed,
    Finalized,
}

/// The number that the stream's protocol gives to a level.
pub open spec fn level_number(level: CommitmentLevel) -> int {
    match level {
        CommitmentLevel::Processed => 0,
        CommitmentLevel::Confirmed => 1,
        CommitmentLevel::Finalized => 2,
    }
}

impl CommitmentLevel {
    /// The number that the stream's protocol gives to this level.
    pub fn number(&self) -> (n: i32)
        ensures
            n == level_number(*self),
    {
        match self {
            CommitmentLevel::Processed => 0,
            CommitmentLevel::Confirmed => 1,
            CommitmentLevel::Finalized => 2,
        }
    }
}

/// The level that a configured commitment stands for.
pub open spec fn level_of(commitment: ArgsCommitment) -> CommitmentLevel {
    match commitment {
        ArgsCommitment::Processed => CommitmentLevel::Processed,
        ArgsCommitment::Confirmed => CommitmentLevel::Confirmed,
        ArgsCommitment::Finalized => CommitmentLevel::Finalized,
    }
}

impl From<ArgsCommitment> for CommitmentLevel {
    fn from(commitment: ArgsCommitment) -> (level: Self) {
        match commitment {
            ArgsCommitment::Processed => CommitmentLevel::Processed,
            ArgsCommitment::Confirmed => CommitmentLevel::Confirmed,
            ArgsCommitment::Finalized => CommitmentLevel::Finalized,
        }
    }
}

impl vstd::std_specs::convert::FromSpecImpl<ArgsCommitment> for CommitmentLevel {
    open spec fn obeys_from_spec() -> bool {
        true
    }

    open spec fn from_spec(commitment: ArgsCommitment) -> Self {
        level_of(commitment)
    }
}

impl Default for ArgsCommitment {
    fn default() -> (commitment: Self)
        ensures
            commitment == ArgsCommitment::Processed,
    {
        ArgsCommitment::Processed
    }
}

impl ArgsCommitment {
    /// The name of the commitment in a configuration file.
    pub open spec fn name(self) -> Seq<char> {
        match self {
            ArgsCommitment::Processed => "processed"@,
            ArgsCommitment::Confirmed => "confirmed"@,
            ArgsCommitment::Finalized => "finalized"@,
        }
    }

    /// The name of the commitment in a configuration file.
    pub fn as_str(&self) -> (name: &'static str)
        ensures
            name@ == self.name(),
    {
        match self {
            ArgsCommitment::Processed => "processed",
            ArgsCommitment::Confirmed => "confirmed",
            ArgsCommitment::Finalized => "finalized",
        }
    }
}

impl EndpointKind {
    /// The name of the kind in a configuration file.
    pub open spec fn name(self) -> Seq<char> {
        match self {
            EndpointKind::Rpc => "rpc"@,
            EndpointKind::Custom => "custom"@,
            EndpointKind::Soyas => "soyas"@,
        }
    }

    /// The name of the kind in a configuration file.
    pub fn as_str(&self) -> (name: &'static str)
        ensures
            name@ == self.name(),
    {
        match self {
            EndpointKind::Rpc => "rpc",
            EndpointKind::Custom => "custom",
            EndpointKind::Soyas => "soyas",
        }
    }

    /// The name of the kind in messages.
    pub open spec fn title(self) -> Seq<char> {
        match self {
            EndpointKind::Rpc => "Rpc"@,
            EndpointKind::Custom => "Custom"@,
            EndpointKind::Soyas => "Soyas"@,
        }
    }

    /// The name of the kind in messages.
    pub(crate) fn title_str(&self) -> (name: &'static str)
        ensures
            name@ == self.title(),
    {
        match self {
            EndpointKind::Rpc => "Rpc",
            EndpointKind::Custom => "Custom",
            EndpointKind::Soyas => "Soyas",
        }
    }
}

/// How long to wait for a landing where the configuration does not say.
pub fn default_landing_grace_ms() -> (ms: u64)
    ensures
        ms == 10_000,
{
    10_000
}

/// The priority fee where the configuration does not say: none.
pub fn default_priority_fee() -> (fee: Option<u64>)
    ensures
        fee is None,
{
    None
}

/// The compute-unit limit where the configuration does not say.
pub fn default_compute_unit_limit() -> (units: u32)
    ensures
        units == 1_000_000,
{
    1_000_000
}

/// The node that nonces are read from where the configuration does not say.
pub fn default_utility_rpc() -> (url: String)
    ensures
        url@ == "https://api.mainnet-beta.solana.com"@,
{
    "https://api.mainnet-beta.solana.com".to_owned()
}

/// What an endpoint lacks.
#[derive(Debug, Clone, Copy, PartialEq, Eq, Structural)]
pub enum EndpointFault {
    ApiKey,
    Tip,
    Wallet,
}

/// Why a configuration is refused.
#[derive(Debug, Clone)]
pub enum ConfigFault {
    NoEndpoint,
    Listener,
    Endpoint { kind: EndpointKind, name: String, fault: EndpointFault },
}

/// Whether an endpoint sets a tip above zero.
pub open spec fn tips(endpoint: Endpoint) -> bool {
    endpoint.tip_lamports matches Some(lamports) && lamports > 0
}

/// What an endpoint lacks first, if anything: a plain RPC node needs nothing, a tipped endpoint
/// a tip and the wallet it goes to, a Soyas endpoint an API key before both.
pub open spec fn endpoint_fault(endpoint: Endpoint) -> Option<EndpointFault> {
    if endpoint.kind == EndpointKind::Rpc {
        None
    } else if endpoint.kind == EndpointKind::Soyas && endpoint.api_key is None {
        Some(EndpointFault::ApiKey)
    } else if !tips(endpoint) {
        Some(EndpointFault::Tip)
    } else if endpoint.tip_wallet is None {
        Some(EndpointFault::Wallet)
    } else {
        None
    }
}

/// Whether a configuration can be run: it names an endpoint, reads a stream of a known kind, and
/// no endpoint lacks anything.
pub open spec fn runnable(config: ConfigToml) -> bool {
    &&& config.endpoint@.len() > 0
    &&& config.grpc.kind == GrpcKind::Yellowstone
    &&& forall|i: int|
        0 <= i < config.endpoint@.len() ==> endpoint_fault(#[trigger] config.endpoint@[i]) is None
}

/// Whether endpoint `i` is the first that lacks something.
pub open spec fn first_fault(endpoints: Seq<Endpoint>, i: int) -> bool {
    &&& 0 <= i < endpoints.len()
    &&& endpoint_fault(endpoints[i]) is Some
    &&& forall|j: int| 0 <= j < i ==> endpoint_fault(#[trigger] endpoints[j]) is None
}

fn check_endpoint(endpoint: &Endpoint) -> (fault: Option<EndpointFault>)
    ensures
        fault == endpoint_fault(*endpoint),
{
    if endpoint.kind == EndpointKind::Rpc {
        return None;
    }
    if endpoint.kind == EndpointKind::Soyas && endpoint.api_key.is_none() {
        return Some(EndpointFault::ApiKey);
    }
    if endpoint.tip_lamports.unwrap_or(0) == 0 {
        return Some(EndpointFault::Tip);
    }
    if endpoint.tip_wallet.is_none() {
        return Some(EndpointFault::Wallet);
    }
    None
}

/// Checks a configuration before it is run, and says what is wrong with it first.
pub fn validate_config(config: &ConfigToml) -> (checked: Result<(), ConfigFault>)
    ensures
        match checked {
            Ok(()) => runnable(*config),
            Err(ConfigFault::NoEndpoint) => config.endpoint@.len() == 0,
            Err(ConfigFault::Listener) => config.endpoint@.len() > 0 && config.grpc.kind
                != GrpcKind::Yellowstone,
            Err(ConfigFault::Endpoint { kind, name, fault }) => {
                &&& config.grpc.kind == GrpcKind::Yellowstone
                &&& exists|i: int| #[trigger]
                    first_fault(config.endpoint@, i) && kind == config.endpoint@[i].kind && name@
                        == config.endpoint@[i].name@ && Some(fault) == endpoint_fault(
                        config.endpoint@[i],
                    )
            },
        },
{
    if config.endpoint.is_empty() {
        return Err(ConfigFault::NoEndpoint);
    }
    if config.grpc.kind != GrpcKind::Yellowstone {
        return Err(ConfigFault::Listener);
    }
    let mut i: usize = 0;
    while i < config.endpoint.len()
        invariant
            i <= config.endpoint.len(),
            config.grpc.kind == GrpcKind::Yellowstone,
            forall|j: int|
                0 <= j < i ==> endpoint_fault(#[trigger] config.endpoint@[j]) is None,
        decreases config.endpoint.len() - i,
    {
        let endpoint = &config.endpoint[i];
        if let Some(fault) = check_endpoint(endpoint) {
            assert(first_fault(config.endpoint@, i as int));
            return Err(
                ConfigFault::Endpoint { kind: endpoint.kind, name: endpoint.name.clone(), fault },
            );
        }
        i += 1;
    }
    Ok(())
}

impl EndpointFault {
    /// What a message says of the fault.
    pub open spec fn demand(self) -> Seq<char> {
        match self {
            EndpointFault::ApiKey => " must set api_key"@,
            EndpointFault::Tip => " must set tip_lamports > 0"@,
            EndpointFault::Wallet => " must set tip_wallet"@,
        }
    }
}

impl ConfigFault {
    /// The message that reports the fault.
    pub open spec fn text(self) -> Seq<char> {
        match self {
            ConfigFault::NoEndpoint => "At least one RPC endpoint is required"@,
            ConfigFault::Listener =>
                "Only a single Yellowstone gRPC listener is supported for now"@,
            ConfigFault::Endpoint { kind, name, fault } => kind.title() + " endpoint "@ + name@
                + fault.demand(),
        }
    }

    /// The message that reports the fault.
    pub fn message(&self) -> (text: String)
        ensures
            text@ == self.text(),
    {
        match self {
            ConfigFault::NoEndpoint => "At least one RPC endpoint is required".to_owned(),
            ConfigFault::Listener =>
                "Only a single Yellowstone gRPC listener is supported for now".to_owned(),
            ConfigFault::Endpoint { kind, name, fault } => {
                let mut text = kind.title_str().to_owned();
                text.append(" endpoint ");
                text.append(name.as_str());
                text.append(
                    match fault {
                        EndpointFault::ApiKey => " must set api_key",
                        EndpointFault::Tip => " must set tip_lamports > 0",
                        EndpointFault::Wallet => " must set tip_wallet",
                    },
                );
                text
            },
        }
    }
}

/// Whether an endpoint is a plain RPC node that sets neither tip, wallet nor key.
pub open spec fn plain_rpc(endpoint: Endpoint, name: Seq<char>, url: Seq<char>) -> bool {
    &&& endpoint.name@ == name
    &&& endpoint.url@ == url
    &&& endpoint.kind == EndpointKind::Rpc
    &&& endpoint.tip_lamports is None
    &&& endpoint.tip_wallet is None
    &&& endpoint.api_key is None
}

/// Whether a configuration is the one that is written where there is none yet.
pub open spec fn is_default_config(c: ConfigToml) -> bool {
    &&& c.config.utility_rpc@ == "https://api.mainnet-beta.solana.com"@
    &&& c.config.transactions == 100
    &&& c.config.delay_ms == 50
    &&& c.config.commitment == ArgsCommitment::Processed
    &&& c.config.nonce_account@ == "nonceaccountgoeshere"@
    &&& c.config.private_key@ == "pkgoeshere"@
    &&& c.config.landing_grace_ms == 10_000
    &&& c.config.prio_fee is None
    &&& c.config.compute_unit_limit == 1_000_000
    &&& c.grpc.name@ == "listener"@
    &&& c.grpc.url@ == "http://fra.corvus-labs.io:10101"@
    &&& c.grpc.x_token is None
    &&& c.grpc.kind == GrpcKind::Yellowstone
    &&& c.endpoint@.len() == 2
    &&& plain_rpc(c.endpoint@[0], "rpc-a"@, "https://api.mainnet-beta.solana.com"@)
    &&& plain_rpc(c.endpoint@[1], "rpc-b"@, "https://ssc-dao.genesysgo.net"@)
}

/// Where a configuration comes from.
#[derive(Debug)]
pub enum ConfigSource {
    /// The file is there: read it.
    Load,
    /// The file is not there: write this configuration to it and go on with it.
    Create(ConfigToml),
}

impl ConfigToml {
    /// The configuration to write where there is none yet. It passes the checks of
    /// `validate_config`.
    pub fn create_default() -> (c: ConfigToml)
        ensures
            is_default_config(c),
            runnable(c),
    {
        let mut endpoint: Vec<Endpoint> = Vec::new();
        endpoint.push(
            Endpoint {
                name: "rpc-a".to_owned(),
                url: "https://api.mainnet-beta.solana.com".to_owned(),
                kind: EndpointKind::Rpc,
                tip_lamports: None,
                tip_wallet: None,
                api_key: None,
            },
        );
        endpoint.push(
            Endpoint {
                name: "rpc-b".to_owned(),
                url: "https://ssc-dao.genesysgo.net".to_owned(),
                kind: EndpointKind::Rpc,
                tip_lamports: None,
                tip_wallet: None,
                api_key: None,
            },
        );
        ConfigToml {
            config: Config {
                utility_rpc: default_utility_rpc(),
                transactions: 100,
                delay_ms: 50,
                commitment: ArgsCommitment::Processed,
                nonce_account: "nonceaccountgoeshere".to_owned(),
                private_key: "pkgoeshere".to_owned(),
                landing_grace_ms: default_landing_grace_ms(),
                prio_fee: default_priority_fee(),
                compute_unit_limit: default_compute_unit_limit(),
            },
            grpc: GrpcEndpoint {
                name: "listener".to_owned(),
                url: "http://fra.corvus-labs.io:10101".to_owned(),
                x_token: None,
                kind: GrpcKind::Yellowstone,
            },
            endpoint,
        }
    }

    /// Where the configuration comes from, given whether its file exists.
    pub fn load_or_create(exists: bool) -> (source: ConfigSource)
        ensures
            match source {
                ConfigSource::Load => exists,
                ConfigSource::Create(c) => !exists && is_default_config(c) && runnable(c),
            },
    {
        if exists {
            ConfigSource::Load
        } else {
            ConfigSource::Create(Self::create_default())
        }
    }
}

/// A configuration can be run exactly where it names an endpoint and every endpoint has what its
/// kind needs: a plain RPC node nothing, any other a tip above zero and a wallet, and a Soyas
/// endpoint an API key as well.
pub proof fn configurations_that_can_be_run(config: ConfigToml)
    ensures
        runnable(config) <==> {
            &&& config.endpoint@.len() > 0
            &&& forall|i: int|
                0 <= i < config.endpoint@.len() ==> {
                    let endpoint = #[trigger] config.endpoint@[i];
                    ||| endpoint.kind == EndpointKind::Rpc
                    ||| {
                        &&& endpoint.tip_lamports is Some && endpoint.tip_lamports->0 > 0
                        &&& endpoint.tip_wallet is Some
                        &&& endpoint.kind == EndpointKind::Soyas ==> endpoint.api_key is Some
                    }
                }
        },
{
    assert forall|i: int| 0 <= i < config.endpoint@.len() implies (endpoint_fault(
        #[trigger] config.endpoint@[i],
    ) is None <==> {
        let endpoint = config.endpoint@[i];
        ||| endpoint.kind == EndpointKind::Rpc
        ||| {
            &&& endpoint.tip_lamports is Some && endpoint.tip_lamports->0 > 0
            &&& endpoint.tip_wallet is Some
            &&& endpoint.kind == EndpointKind::Soyas ==> endpoint.api_key is Some
        }
    }) by {}
}

/// What is found lacking first in an endpoint: the API key of a Soyas endpoint, then the tip, then
/// the wallet; and which endpoint of a list is found lacking.
pub proof fn first_thing_lacking(endpoint: Endpoint, endpoints: Seq<Endpoint>, i: int)
    ensures
        ({
            let needy = endpoint.kind != EndpointKind::Rpc;
            let key = endpoint.kind == EndpointKind::Soyas && endpoint.api_key is None;
            let tip = endpoint.tip_lamports is None || endpoint.tip_lamports->0 == 0;
            let wallet = endpoint.tip_wallet is None;
            &&& endpoint_fault(endpoint) == Some(EndpointFault::ApiKey) <==> key
            &&& endpoint_fault(endpoint) == Some(EndpointFault::Tip) <==> needy && !key && tip
            &&& endpoint_fault(endpoint) == Some(EndpointFault::Wallet) <==> needy && !key && !tip
                && wallet
            &&& endpoint_fault(endpoint) is None <==> !needy || (!key && !tip && !wallet)
        }),
        first_fault(endpoints, i) <==> {
            &&& 0 <= i < endpoints.len()
            &&& endpoint_fault(endpoints[i]) is Some
            &&& forall|j: int| 0 <= j < i ==> endpoint_fault(#[trigger] endpoints[j]) is None
        },
{
}

/// What is said of each fault of a configuration.
pub proof fn texts_of_config_faults(name: String)
    ensures
        ConfigFault::NoEndpoint.text() == "At least one RPC endpoint is required"@,
        ConfigFault::Listener.text()
            == "Only a single Yellowstone gRPC listener is supported for now"@,
        (ConfigFault::Endpoint {
            kind: EndpointKind::Custom,
            name,
            fault: EndpointFault::Tip,
        }).text() == "Custom"@ + " endpoint "@ + name@ + " must set tip_lamports > 0"@,
        (ConfigFault::Endpoint {
            kind: EndpointKind::Custom,
            name,
            fault: EndpointFault::Wallet,
        }).text() == "Custom"@ + " endpoint "@ + name@ + " must set tip_wallet"@,
        (ConfigFault::Endpoint {
            kind: EndpointKind::Soyas,
            name,
            fault: EndpointFault::ApiKey,
        }).text() == "Soyas"@ + " endpoint "@ + name@ + " must set api_key"@,
        (ConfigFault::Endpoint {
            kind: EndpointKind::Soyas,
            name,
            fault: EndpointFault::Tip,
        }).text() == "Soyas"@ + " endpoint "@ + name@ + " must set tip_lamports > 0"@,
        (ConfigFault::Endpoint {
            kind: EndpointKind::Soyas,
            name,
            fault: EndpointFault::Wallet,
        }).text() == "Soyas"@ + " endpoint "@ + name@ + " must set tip_wallet"@,
{
}

/// The names of kinds and commitments, and the numbers of the levels that commitments stand for.
pub proof fn names_and_numbers()
    ensures
        EndpointKind::Rpc.name() == "rpc"@,
        EndpointKind::Custom.name() == "custom"@,
        EndpointKind::Soyas.name() == "soyas"@,
        ArgsCommitment::Processed.name() == "processed"@,
        ArgsCommitment::Confirmed.name() == "confirmed"@,
        ArgsCommitment::Finalized.name() == "finalized"@,
        level_of(ArgsCommitment::Processed) == CommitmentLevel::Processed,
        level_of(ArgsCommitment::Confirmed) == CommitmentLevel::Confirmed,
        level_of(ArgsCommitment::Finalized) == CommitmentLevel::Finalized,
        level_number(CommitmentLevel::Processed) == 0,
        level_number(CommitmentLevel::Confirmed) == 1,
        level_number(CommitmentLevel::Finalized) == 2,
{
}

} // verus!
