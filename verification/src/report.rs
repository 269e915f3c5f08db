//! The report at the end of a run.

use crate::book::{LandingSummary, ProviderSummary};
use crate::config::{ConfigToml, Endpoint, EndpointKind};
use crate::text::{cut_after_last, cut_before, cut_scheme, decimal, same_text};
use url::Url;
use vstd::prelude::*;
use vstd::string::*;

verus! {

/// What is shown of an address that could be parsed.
#[derive(Debug, Clone)]
pub struct ParsedUrl {
    pub host: Option<String>,
    pub port: Option<u16>,
}

/// What is shown of an address that could be parsed.
pub struct UrlModel {
    pub host: Option<Seq<char>>,
    pub port: Option<u16>,
}

impl View for ParsedUrl {
    type V = UrlModel;

    open spec fn view(&self) -> UrlModel {
        UrlModel {
            host: match self.host {
                Some(host) => Some(host@),
                None => None,
            },
            port: self.port,
        }
    }
}

/// The host and the explicit port of an address, if it can be parsed.
pub uninterp spec fn parsed_url(raw: Seq<char>) -> Option<UrlModel>;

/// Whether a text holds none of the marks that set credentials, path, query and fragment of an
/// address off from its host.
pub open spec fn is_bare(text: Seq<char>) -> bool {
    &&& !text.contains('@')
    &&& !text.contains('/')
    &&& !text.contains('?')
    &&& !text.contains('#')
}

/// Calls `Url::parse`, `host_str` and `port`. Claimed is that what they give is a function of the
/// text, and that a host holds none of `@`, `/`, `?` and `#`, which the parser refuses in a host.
#[verifier::external_body]
fn parse_url(raw: &str) -> (parsed: Option<ParsedUrl>)
    ensures
        match parsed {
            Some(p) => {
                &&& parsed_url(raw@) == Some(p@)
                &&& p.host matches Some(host) ==> is_bare(host@)
            },
            None => parsed_url(raw@) is None,
        },
{
    let url = Url::parse(raw).ok()?;
    Some(ParsedUrl { host: url.host_str().map(|host| host.to_string()), port: url.port() })
}

/// The host in an address that cannot be parsed: what stands between the scheme and credentials on
/// one side and the path, query and fragment on the other.
pub open spec fn bare_host(raw: Seq<char>) -> Seq<char> {
    let trimmed = crate::text::before_first(crate::text::before_first(raw, '?'), '#');
    let host = crate::text::before_first(
        crate::text::after_last(crate::text::after_scheme(trimmed), '@'),
        '/',
    );
    if host.len() == 0 {
        "-"@
    } else {
        host
    }
}

/// What is shown of an address: its host and explicit port, or what looks like its host where it
/// cannot be parsed.
pub open spec fn host_text(parsed: Option<UrlModel>, raw: Seq<char>) -> Seq<char> {
    match parsed {
        Some(url) => {
            let host = match url.host {
                Some(host) => host,
                None => "-"@,
            };
            match url.port {
                Some(port) => host + ":"@ + crate::text::decimal_text(port as nat),
                None => host,
            }
        },
        None => bare_host(raw),
    }
}

/// What is shown of an address, given what came of parsing it.
pub fn describe_host(parsed: Option<ParsedUrl>, raw_url: &str) -> (text: String)
    ensures
        text@ == host_text(
            match parsed {
                Some(p) => Some(p@),
                None => None,
            },
            raw_url@,
        ),
{
    match parsed {
        Some(url) => {
            let mut text = match url.host {
                Some(host) => host,
                None => "-".to_owned(),
            };
            if let Some(port) = url.port {
                text.append(":");
                text.append(decimal(port as u64).as_str());
            }
            text
        },
        None => {
            let trimmed = cut_before(cut_before(raw_url, '?'), '#');
            let host = cut_before(cut_after_last(cut_scheme(trimmed), '@'), '/');
            if host.is_empty() {
                "-".to_owned()
            } else {
                host.to_owned()
            }
        },
    }
}

/// What is shown of an address. It never holds credentials, path, query or fragment.
pub fn display_endpoint_host(raw_url: &str) -> (text: String)
    ensures
        text@ == host_text(parsed_url(raw_url@), raw_url@),
        is_bare(text@),
{
    let parsed = parse_url(raw_url);
    proof {
        shown_host_is_bare(parsed_url(raw_url@), raw_url@);
    }
    describe_host(parsed, raw_url)
}

/// What is shown of an address.
pub open spec fn shown(raw: Seq<char>) -> Seq<char> {
    host_text(parsed_url(raw), raw)
}

/// What is shown of the first endpoint of a name.
pub open spec fn host_named(endpoints: Seq<Endpoint>, name: Seq<char>) -> Seq<char>
    decreases endpoints.len(),
{
    if endpoints.len() == 0 {
        "-"@
    } else if endpoints[0].name@ == name {
        shown(endpoints[0].url@)
    } else {
        host_named(endpoints.drop_first(), name)
    }
}

/// What is shown of the first endpoint of a name.
pub fn lookup_url(config: &ConfigToml, name: &str) -> (text: String)
    ensures
        text@ == host_named(config.endpoint@, name@),
        is_bare(text@),
{
    let mut i: usize = 0;
    assert(config.endpoint@.skip(0) == config.endpoint@);
    while i < config.endpoint.len()
        invariant
            i <= config.endpoint.len(),
            host_named(config.endpoint@, name@) == host_named(
                config.endpoint@.skip(i as int),
                name@,
            ),
        decreases config.endpoint.len() - i,
    {
        let endpoint = &config.endpoint[i];
        assert(config.endpoint@.skip(i as int)[0] == endpoint);
        if same_text(endpoint.name.as_str(), name) {
            return display_endpoint_host(endpoint.url.as_str());
        }
        assert(config.endpoint@.skip(i as int).drop_first() == config.endpoint@.skip(i + 1));
        i += 1;
    }
    proof {
        reveal_strlit("-");
    }
    "-".to_owned()
}

/// The tip and its wallet as the report shows them: of custom endpoints that set both.
pub open spec fn tip_text(endpoint: Endpoint) -> Seq<char> {
    match (endpoint.tip_lamports, endpoint.tip_wallet) {
        (Some(tip), Some(wallet)) => if endpoint.kind == EndpointKind::Custom {
            " tip="@ + crate::text::decimal_text(tip as nat) + " to "@ + wallet@
        } else {
            Seq::empty()
        },
        _ => Seq::empty(),
    }
}

/// An endpoint as the report shows it.
pub open spec fn endpoint_text(endpoint: Endpoint) -> Seq<char> {
    endpoint.name@ + " ("@ + shown(endpoint.url@) + ") ["@ + endpoint.kind.name() + "]"@
        + tip_text(endpoint)
}

/// Endpoints as the report shows them.
pub open spec fn endpoints_text(endpoints: Seq<Endpoint>) -> Seq<char>
    decreases endpoints.len(),
{
    if endpoints.len() == 0 {
        Seq::empty()
    } else if endpoints.len() == 1 {
        endpoint_text(endpoints[0])
    } else {
        endpoints_text(endpoints.drop_last()) + ", "@ + endpoint_text(endpoints.last())
    }
}

fn describe_endpoint(endpoint: &Endpoint) -> (text: String)
    ensures
        text@ == endpoint_text(*endpoint),
{
    let mut text = endpoint.name.clone();
    text.append(" (");
    text.append(display_endpoint_host(endpoint.url.as_str()).as_str());
    text.append(") [");
    text.append(endpoint.kind.as_str());
    text.append("]");
    if endpoint.kind == EndpointKind::Custom {
        if let (Some(tip), Some(wallet)) = (endpoint.tip_lamports, &endpoint.tip_wallet) {
            text.append(" tip=");
            text.append(decimal(tip).as_str());
            text.append(" to ");
            text.append(wallet.as_str());
        }
    }
    assert(text@ =~= endpoint_text(*endpoint));
    text
}

fn describe_endpoints(endpoints: &Vec<Endpoint>) -> (text: String)
    ensures
        text@ == endpoints_text(endpoints@),
{
    let mut text = "".to_owned();
    let mut i: usize = 0;
    proof {
        reveal_strlit("");
        assert(text@ =~= Seq::<char>::empty());
    }
    while i < endpoints.len()
        invariant
            i <= endpoints.len(),
            text@ == endpoints_text(endpoints@.take(i as int)),
        decreases endpoints.len() - i,
    {
        if i > 0 {
            text.append(", ");
        }
        text.append(describe_endpoint(&endpoints[i]).as_str());
        proof {
            let next = endpoints@.take(i + 1);
            assert(next.drop_last() == endpoints@.take(i as int));
            assert(next.last() == endpoints@[i as int]);
            assert(text@ =~= endpoints_text(next));
        }
        i += 1;
    }
    assert(endpoints@.take(endpoints.len() as int) == endpoints@);
    text
}

/// A landing time, given in milliseconds, as the report shows it.
pub open spec fn ms_text(value: Option<Seq<char>>) -> Seq<char> {
    match value {
        Some(ms) => ms + " ms"@,
        None => "-"@,
    }
}

/// A landing time, given in milliseconds, as the report shows it.
pub fn format_opt_ms(value: &Option<String>) -> (text: String)
    ensures
        text@ == ms_text(crate::cli::optional_text(*value)),
{
    match value {
        Some(ms) => {
            let mut text = ms.clone();
            text.append(" ms");
            text
        },
        None => "-".to_owned(),
    }
}

/// Figures of the report that are fractions, in decimal: the fee with six places, shares in percent
/// with one, times in whole milliseconds where anything landed.
#[derive(Debug, Clone)]
pub struct Figures {
    pub prio_fee: String,
    pub landed_share: String,
    pub min: Option<String>,
    pub max: Option<String>,
    pub avg: Option<String>,
    pub p50: Option<String>,
    pub p90: Option<String>,
    pub p95: Option<String>,
    pub p99: Option<String>,
    /// The share of each provider in the rounds that landed, in the order of the summary.
    pub shares: Vec<String>,
}

/// The rounds that landed and the rounds of which they are a share, where there were any. Where
/// there were none the share is zero.
pub fn landed_parts(summary: &LandingSummary) -> (parts: Option<(usize, usize)>)
    ensures
        parts == if summary.rounds > 0 {
            Some((summary.total_landed, summary.rounds))
        } else {
            None
        },
{
    if summary.rounds > 0 {
        Some((summary.total_landed, summary.rounds))
    } else {
        None
    }
}

/// The wins of a provider and the landed rounds of which they are a share, where there were any.
/// Where there were none the share is zero.
pub fn provider_parts(provider: &ProviderSummary, summary: &LandingSummary) -> (parts: Option<
    (usize, usize),
>)
    ensures
        parts == if summary.total_landed > 0 {
            Some((provider.landed, summary.total_landed))
        } else {
            None
        },
{
    if summary.total_landed > 0 {
        Some((provider.landed, summary.total_landed))
    } else {
        None
    }
}

/// A landing time as the report shows it.
pub open spec fn time_text(value: Option<String>) -> Seq<char> {
    ms_text(crate::cli::optional_text(value))
}

/// The part of the report before the providers.
pub open spec fn head_lines(
    summary: LandingSummary,
    config: ConfigToml,
    test_id: Seq<char>,
    figures: Figures,
) -> Seq<Seq<char>> {
    let landed = crate::text::decimal_text(summary.total_landed as nat);
    let rounds = crate::text::decimal_text(summary.rounds as nat);
    let delay = crate::text::decimal_text(config.config.delay_ms as nat);
    let units = crate::text::decimal_text(config.config.compute_unit_limit as nat);
    seq![
        ""@,
        "Finished Test ID      : "@ + test_id,
        "Utility RPC Host      : "@ + shown(config.config.utility_rpc@),
        "gRPC Endpoint         : "@ + shown(config.grpc.url@),
        "RPC Send Endpoints    : "@ + endpoints_text(config.endpoint@),
        "Nonce Account         : "@ + config.config.nonce_account@,
        "Transactions Count    : "@ + rounds,
        "Send Interval         : "@ + delay + "ms"@,
        "Compute Unit Limit    : "@ + units,
        "Priority Fee/CU       : "@ + figures.prio_fee@ + " Lamports"@,
        "Transactions Landed   : "@ + landed + "/"@ + rounds + " ("@ + figures.landed_share@ + "%)"@,
        "Min Tx Landing Time   : "@ + time_text(figures.min),
        "Max Tx Landing Time   : "@ + time_text(figures.max),
        "Avg Tx Landing Time   : "@ + time_text(figures.avg),
        "Median Tx Landing Time: "@ + time_text(figures.p50),
        "P90 Tx Landing Time   : "@ + time_text(figures.p90),
        "P95 Tx Landing Time   : "@ + time_text(figures.p95),
        "P99 Tx Landing Time   : "@ + time_text(figures.p99),
        ""@,
        "Endpoint Landing Results:"@,
    ]
}

/// The line of the report on one provider.
pub open spec fn provider_line(
    provider: ProviderSummary,
    share: Seq<char>,
    endpoints: Seq<Endpoint>,
) -> Seq<char> {
    "  "@ + provider.name@ + " : "@ + crate::text::decimal_text(provider.landed as nat)
        + " wins ("@ + share + "%) ["@ + host_named(endpoints, provider.name@) + "]"@
}

/// The report at the end of a run.
pub open spec fn report_lines(
    summary: LandingSummary,
    config: ConfigToml,
    test_id: Seq<char>,
    figures: Figures,
) -> Seq<Seq<char>> {
    head_lines(summary, config, test_id, figures) + Seq::new(
        summary.providers@.len(),
        |i: int|
            provider_line(summary.providers@[i], figures.shares@[i]@, config.endpoint@),
    )
}

/// Lines as texts.
pub open spec fn texts(lines: Seq<String>) -> Seq<Seq<char>> {
    lines.map_values(|line: String| line@)
}

fn joined(label: &str, value: &str) -> (text: String)
    ensures
        text@ == label@ + value@,
{
    let mut text = label.to_owned();
    text.append(value);
    text
}

fn joined_with(label: &str, value: &str, unit: &str) -> (text: String)
    ensures
        text@ == label@ + value@ + unit@,
{
    let mut text = joined(label, value);
    text.append(unit);
    text
}

fn describe_provider(provider: &ProviderSummary, share: &str, config: &ConfigToml) -> (text: String)
    ensures
        text@ == provider_line(*provider, share@, config.endpoint@),
{
    let mut text = joined_with("  ", provider.name.as_str(), " : ");
    text.append(decimal(provider.landed as u64).as_str());
    text.append(" wins (");
    text.append(share);
    text.append("%) [");
    text.append(lookup_url(config, provider.name.as_str()).as_str());
    text.append("]");
    text
}

fn describe_landed(summary: &LandingSummary, share: &str) -> (text: String)
    ensures
        text@ == "Transactions Landed   : "@ + crate::text::decimal_text(
            summary.total_landed as nat,
        ) + "/"@ + crate::text::decimal_text(summary.rounds as nat) + " ("@ + share@ + "%)"@,
{
    let mut text = joined_with(
        "Transactions Landed   : ",
        decimal(summary.total_landed as u64).as_str(),
        "/",
    );
    text.append(decimal(summary.rounds as u64).as_str());
    text.append(" (");
    text.append(share);
    text.append("%)");
    text
}

fn render_head(
    summary: &LandingSummary,
    config: &ConfigToml,
    test_id: &str,
    figures: &Figures,
) -> (lines: Vec<String>)
    ensures
        texts(lines@) == head_lines(*summary, *config, test_id@, *figures),
{
    let run = &config.config;
    let mut lines: Vec<String> = Vec::new();
    lines.push("".to_owned());
    lines.push(joined("Finished Test ID      : ", test_id));
    let utility = display_endpoint_host(run.utility_rpc.as_str());
    lines.push(joined("Utility RPC Host      : ", utility.as_str()));
    let grpc = display_endpoint_host(config.grpc.url.as_str());
    lines.push(joined("gRPC Endpoint         : ", grpc.as_str()));
    let endpoints = describe_endpoints(&config.endpoint);
    lines.push(joined("RPC Send Endpoints    : ", endpoints.as_str()));
    lines.push(joined("Nonce Account         : ", run.nonce_account.as_str()));
    lines.push(joined("Transactions Count    : ", decimal(summary.rounds as u64).as_str()));
    lines.push(joined_with("Send Interval         : ", decimal(run.delay_ms).as_str(), "ms"));
    let units = decimal(run.compute_unit_limit as u64);
    lines.push(joined("Compute Unit Limit    : ", units.as_str()));
    lines.push(
        joined_with("Priority Fee/CU       : ", figures.prio_fee.as_str(), " Lamports"),
    );
    lines.push(describe_landed(summary, figures.landed_share.as_str()));
    lines.push(joined("Min Tx Landing Time   : ", format_opt_ms(&figures.min).as_str()));
    lines.push(joined("Max Tx Landing Time   : ", format_opt_ms(&figures.max).as_str()));
    lines.push(joined("Avg Tx Landing Time   : ", format_opt_ms(&figures.avg).as_str()));
    lines.push(joined("Median Tx Landing Time: ", format_opt_ms(&figures.p50).as_str()));
    lines.push(joined("P90 Tx Landing Time   : ", format_opt_ms(&figures.p90).as_str()));
    lines.push(joined("P95 Tx Landing Time   : ", format_opt_ms(&figures.p95).as_str()));
    lines.push(joined("P99 Tx Landing Time   : ", format_opt_ms(&figures.p99).as_str()));
    lines.push("".to_owned());
    lines.push("Endpoint Landing Results:".to_owned());
    assert(texts(lines@) =~= head_lines(*summary, *config, test_id@, *figures));
    lines
}

/// The report at the end of a run, line by line.
pub fn render_summary(
    summary: &LandingSummary,
    config: &ConfigToml,
    test_id: &str,
    figures: &Figures,
) -> (lines: Vec<String>)
    requires
        figures.shares@.len() == summary.providers@.len(),
    ensures
        texts(lines@) == report_lines(*summary, *config, test_id@, *figures),
{
    let mut lines = render_head(summary, config, test_id, figures);
    let ghost head = head_lines(*summary, *config, test_id@, *figures);
    let mut i: usize = 0;
    while i < summary.providers.len()
        invariant
            i <= summary.providers.len(),
            figures.shares@.len() == summary.providers@.len(),
            texts(lines@) == head + Seq::new(
                i as nat,
                |k: int|
                    provider_line(summary.providers@[k], figures.shares@[k]@, config.endpoint@),
            ),
        decreases summary.providers.len() - i,
    {
        let ghost before = lines@;
        let line = describe_provider(&summary.providers[i], figures.shares[i].as_str(), config);
        lines.push(line);
        proof {
            assert(texts(lines@) =~= texts(before).push(line@));
            assert(texts(lines@) =~= head + Seq::new(
                (i + 1) as nat,
                |k: int|
                    provider_line(summary.providers@[k], figures.shares@[k]@, config.endpoint@),
            ));
        }
        i += 1;
    }
    lines
}

proof fn lemma_before_first(s: Seq<char>, c: char)
    ensures
        !crate::text::before_first(s, c).contains(c),
        forall|x: char| #[trigger]
            crate::text::before_first(s, c).contains(x) ==> s.contains(x),
{
    crate::text::lemma_position(s, c);
    let cut = crate::text::before_first(s, c);
    assert forall|x: char| #[trigger] cut.contains(x) implies s.contains(x) by {
        let i = choose|i: int| 0 <= i < cut.len() && cut[i] == x;
        assert(s[i] == x);
    }
}

proof fn lemma_after_last(s: Seq<char>, c: char)
    ensures
        !crate::text::after_last(s, c).contains(c),
        forall|x: char| #[trigger] crate::text::after_last(s, c).contains(x) ==> s.contains(x),
    decreases s.len(),
{
    let cut = crate::text::after_last(s, c);
    if s.len() > 0 && s.last() != c {
        let front = s.drop_last();
        lemma_after_last(front, c);
        assert forall|x: char| #[trigger] cut.contains(x) implies s.contains(x) && x != c by {
            let i = choose|i: int| 0 <= i < cut.len() && cut[i] == x;
            if i < cut.len() - 1 {
                assert(crate::text::after_last(front, c)[i] == x);
                assert(crate::text::after_last(front, c).contains(x));
                let j = choose|j: int| 0 <= j < front.len() && front[j] == x;
                assert(s[j] == x);
            } else {
                assert(s[s.len() - 1] == x);
            }
        }
    }
}

proof fn lemma_after_scheme(s: Seq<char>)
    ensures
        forall|x: char| #[trigger] crate::text::after_scheme(s).contains(x) ==> s.contains(x),
{
    let cut = crate::text::after_scheme(s);
    lemma_scheme_end(s);
    assert forall|x: char| #[trigger] cut.contains(x) implies s.contains(x) by {
        let i = choose|i: int| 0 <= i < cut.len() && cut[i] == x;
        if let Some(end) = crate::text::scheme_end(s) {
            assert(s[i + end] == x);
        }
    }
}

proof fn lemma_scheme_end(s: Seq<char>)
    ensures
        crate::text::scheme_end(s) matches Some(end) ==> 3 <= end <= s.len(),
    decreases s.len(),
{
    if s.len() >= 3 {
        lemma_scheme_end(s.drop_first());
    }
}

/// What is shown of an address that cannot be parsed holds neither credentials nor a path, query or
/// fragment, and is never empty.
pub proof fn bare_host_is_bare(raw: Seq<char>)
    ensures
        is_bare(bare_host(raw)),
        bare_host(raw).len() > 0,
{
    let a = crate::text::before_first(raw, '?');
    let b = crate::text::before_first(a, '#');
    let c = crate::text::after_scheme(b);
    let d = crate::text::after_last(c, '@');
    reveal_strlit("-");
    lemma_before_first(raw, '?');
    lemma_before_first(a, '#');
    lemma_after_scheme(b);
    lemma_after_last(c, '@');
    lemma_before_first(d, '/');
}

/// What is shown of any address holds neither credentials nor a path, query or fragment, where a
/// host that was parsed holds none.
pub proof fn shown_host_is_bare(parsed: Option<UrlModel>, raw: Seq<char>)
    requires
        parsed matches Some(url) ==> (url.host matches Some(host) ==> is_bare(host)),
    ensures
        is_bare(host_text(parsed, raw)),
{
    reveal_strlit("-");
    reveal_strlit(":");
    match parsed {
        Some(url) => {
            let host = match url.host {
                Some(host) => host,
                None => "-"@,
            };
            assert(is_bare(host));
            if let Some(port) = url.port {
                let digits = crate::text::decimal_text(port as nat);
                let text = host + ":"@ + digits;
                crate::text::lemma_decimal_digits(port as nat);
                assert forall|c: char| #[trigger] text.contains(c) implies host.contains(c) || c
                    == ':' || '0' <= c <= '9' by {
                    let i = choose|i: int| 0 <= i < text.len() && text[i] == c;
                    if i < host.len() {
                        assert(host[i] == c);
                    } else if i > host.len() {
                        assert(digits[i - host.len() - 1] == c);
                    }
                }
            }
        },
        None => {
            bare_host_is_bare(raw);
        },
    }
}

/// Whether two texts are the same, or both missing.
pub open spec fn same_optional(a: Option<String>, b: Option<String>) -> bool {
    crate::cli::optional_text(a) == crate::cli::optional_text(b)
}

/// Whether two endpoints agree in everything but their API keys.
pub open spec fn same_but_key(a: Endpoint, b: Endpoint) -> bool {
    &&& a.name@ == b.name@
    &&& a.url@ == b.url@
    &&& a.kind == b.kind
    &&& a.tip_lamports == b.tip_lamports
    &&& same_optional(a.tip_wallet, b.tip_wallet)
}

/// Whether two lists of endpoints agree in everything but the API keys.
pub open spec fn same_but_keys(a: Seq<Endpoint>, b: Seq<Endpoint>) -> bool {
    &&& a.len() == b.len()
    &&& forall|i: int| 0 <= i < a.len() ==> same_but_key(#[trigger] a[i], b[i])
}

/// Whether two configurations agree in everything but the private key, the token of the stream and
/// the API keys of the endpoints.
pub open spec fn same_but_secrets(a: ConfigToml, b: ConfigToml) -> bool {
    &&& a.config.utility_rpc@ == b.config.utility_rpc@
    &&& a.config.transactions == b.config.transactions
    &&& a.config.delay_ms == b.config.delay_ms
    &&& a.config.commitment == b.config.commitment
    &&& a.config.nonce_account@ == b.config.nonce_account@
    &&& a.config.landing_grace_ms == b.config.landing_grace_ms
    &&& a.config.prio_fee == b.config.prio_fee
    &&& a.config.compute_unit_limit == b.config.compute_unit_limit
    &&& a.grpc.name@ == b.grpc.name@
    &&& a.grpc.url@ == b.grpc.url@
    &&& a.grpc.kind == b.grpc.kind
    &&& same_but_keys(a.endpoint@, b.endpoint@)
}

/// The report tells nothing of secrets: whatever the private key, the token of the stream and the
/// API keys of the endpoints are, it is the same.
pub proof fn report_keeps_secrets(
    summary: LandingSummary,
    a: ConfigToml,
    b: ConfigToml,
    test_id: Seq<char>,
    figures: Figures,
)
    requires
        same_but_secrets(a, b),
    ensures
        report_lines(summary, a, test_id, figures) == report_lines(summary, b, test_id, figures),
{
    lemma_endpoints_text(a.endpoint@, b.endpoint@);
    let x = report_lines(summary, a, test_id, figures);
    let y = report_lines(summary, b, test_id, figures);
    assert(head_lines(summary, a, test_id, figures) =~= head_lines(summary, b, test_id, figures));
    assert forall|i: int| 20 <= i < x.len() implies x[i] == y[i] by {
        lemma_host_named(a.endpoint@, b.endpoint@, summary.providers@[i - 20].name@);
    }
    assert(x =~= y);
}

proof fn lemma_host_named(a: Seq<Endpoint>, b: Seq<Endpoint>, name: Seq<char>)
    requires
        same_but_keys(a, b),
    ensures
        host_named(a, name) == host_named(b, name),
    decreases a.len(),
{
    if a.len() > 0 {
        assert(same_but_key(a[0], b[0]));
        let x = a.drop_first();
        let y = b.drop_first();
        assert forall|i: int| 0 <= i < x.len() implies same_but_key(#[trigger] x[i], y[i]) by {
            assert(same_but_key(a[i + 1], b[i + 1]));
        }
        lemma_host_named(x, y, name);
    }
}

proof fn lemma_endpoints_text(a: Seq<Endpoint>, b: Seq<Endpoint>)
    requires
        same_but_keys(a, b),
    ensures
        endpoints_text(a) == endpoints_text(b),
    decreases a.len(),
{
    if a.len() > 0 {
        let last = a.len() - 1;
        assert(same_but_key(a[last], b[last]));
        assert(endpoint_text(a[last]) == endpoint_text(b[last]));
        let x = a.drop_last();
        let y = b.drop_last();
        assert forall|i: int| 0 <= i < x.len() implies same_but_key(#[trigger] x[i], y[i]) by {
            assert(same_but_key(a[i], b[i]));
        }
        lemma_endpoints_text(x, y);
    }
}

/// The report has one line for each provider behind a head of fixed length.
pub proof fn report_names_every_provider(
    summary: LandingSummary,
    config: ConfigToml,
    test_id: Seq<char>,
    figures: Figures,
)
    ensures
        report_lines(summary, config, test_id, figures).len() == 20 + summary.providers@.len(),
        forall|i: int|
            0 <= i < summary.providers@.len() ==> #[trigger] report_lines(
                summary,
                config,
                test_id,
                figures,
            )[20 + i] == provider_line(
                summary.providers@[i],
                figures.shares@[i]@,
                config.endpoint@,
            ),
{
}

/// The lines of a report are the texts of the strings that were made, in their order.
pub proof fn lines_are_texts(lines: Seq<String>, i: int)
    requires
        0 <= i < lines.len(),
    ensures
        texts(lines).len() == lines.len(),
        texts(lines)[i] == lines[i]@,
{
}

/// The line on a landing time is its label and the figure that the label names: milliseconds, or a
/// dash where nothing landed. The mean stands on the line of the mean and the 50th percentile on
/// that of the median.
pub proof fn landing_times_stand_by_their_labels(
    summary: LandingSummary,
    config: ConfigToml,
    test_id: Seq<char>,
    figures: Figures,
)
    ensures
        ({
            let lines = report_lines(summary, config, test_id, figures);
            &&& lines[11] == "Min Tx Landing Time   : "@ + match figures.min {
                Some(ms) => ms@ + " ms"@,
                None => "-"@,
            }
            &&& lines[12] == "Max Tx Landing Time   : "@ + match figures.max {
                Some(ms) => ms@ + " ms"@,
                None => "-"@,
            }
            &&& lines[13] == "Avg Tx Landing Time   : "@ + match figures.avg {
                Some(ms) => ms@ + " ms"@,
                None => "-"@,
            }
            &&& lines[14] == "Median Tx Landing Time: "@ + match figures.p50 {
                Some(ms) => ms@ + " ms"@,
                None => "-"@,
            }
            &&& lines[15] == "P90 Tx Landing Time   : "@ + match figures.p90 {
                Some(ms) => ms@ + " ms"@,
                None => "-"@,
            }
            &&& lines[16] == "P95 Tx Landing Time   : "@ + match figures.p95 {
                Some(ms) => ms@ + " ms"@,
                None => "-"@,
            }
            &&& lines[17] == "P99 Tx Landing Time   : "@ + match figures.p99 {
                Some(ms) => ms@ + " ms"@,
                None => "-"@,
            }
        }),
{
}

/// The lines on the run are their labels and what the labels name: the run's name, the hosts of the
/// utility node and of the stream, the endpoints, the nonce account, the rounds that were started,
/// the pause, the limit, the fee, and the landed rounds of those that were started.
pub proof fn settings_stand_by_their_labels(
    summary: LandingSummary,
    config: ConfigToml,
    test_id: Seq<char>,
    figures: Figures,
)
    ensures
        ({
            let lines = report_lines(summary, config, test_id, figures);
            let rounds = crate::text::decimal_text(summary.rounds as nat);
            &&& lines.len() == 20 + summary.providers@.len()
            &&& lines[0].len() == 0
            &&& lines[1] == "Finished Test ID      : "@ + test_id
            &&& lines[2] == "Utility RPC Host      : "@ + host_text(
                parsed_url(config.config.utility_rpc@),
                config.config.utility_rpc@,
            )
            &&& lines[3] == "gRPC Endpoint         : "@ + host_text(
                parsed_url(config.grpc.url@),
                config.grpc.url@,
            )
            &&& lines[4] == "RPC Send Endpoints    : "@ + endpoints_text(config.endpoint@)
            &&& lines[5] == "Nonce Account         : "@ + config.config.nonce_account@
            &&& lines[6] == "Transactions Count    : "@ + rounds
            &&& lines[7] == "Send Interval         : "@ + crate::text::decimal_text(
                config.config.delay_ms as nat,
            ) + "ms"@
            &&& lines[8] == "Compute Unit Limit    : "@ + crate::text::decimal_text(
                config.config.compute_unit_limit as nat,
            )
            &&& lines[9] == "Priority Fee/CU       : "@ + figures.prio_fee@ + " Lamports"@
            &&& lines[10] == "Transactions Landed   : "@ + crate::text::decimal_text(
                summary.total_landed as nat,
            ) + "/"@ + rounds + " ("@ + figures.landed_share@ + "%)"@
            &&& lines[18].len() == 0
            &&& lines[19] == "Endpoint Landing Results:"@
        }),
{
    reveal_strlit("");
}

/// The line on a provider is its name, its wins, its share and the host of the endpoint of its name,
/// and the providers come in the order of the summary.
pub proof fn providers_stand_by_their_names(
    summary: LandingSummary,
    config: ConfigToml,
    test_id: Seq<char>,
    figures: Figures,
    i: int,
)
    requires
        0 <= i < summary.providers@.len(),
    ensures
        ({
            let provider = summary.providers@[i];
            report_lines(summary, config, test_id, figures)[20 + i] == "  "@ + provider.name@
                + " : "@ + crate::text::decimal_text(provider.landed as nat) + " wins ("@
                + figures.shares@[i]@ + "%) ["@ + host_named(config.endpoint@, provider.name@)
                + "]"@
        }),
{
}

/// The host that is shown for a name is that of the first endpoint of the name, and a dash where
/// there is none.
pub proof fn first_endpoint_of_a_name_is_shown(endpoints: Seq<Endpoint>, name: Seq<char>, i: int)
    requires
        forall|j: int| 0 <= j < i && j < endpoints.len() ==> (#[trigger] endpoints[j]).name@ != name,
        0 <= i <= endpoints.len(),
        i < endpoints.len() ==> endpoints[i].name@ == name,
    ensures
        i < endpoints.len() ==> host_named(endpoints, name) == host_text(
            parsed_url(endpoints[i].url@),
            endpoints[i].url@,
        ),
        i == endpoints.len() ==> host_named(endpoints, name) == "-"@,
    decreases i,
{
    if i > 0 {
        let rest = endpoints.drop_first();
        assert(endpoints[0].name@ != name);
        assert forall|j: int| 0 <= j < i - 1 && j < rest.len() implies (#[trigger] rest[j]).name@
            != name by {
            assert(endpoints[j + 1].name@ != name);
        }
        first_endpoint_of_a_name_is_shown(rest, name, i - 1);
    }
}

/// An endpoint is shown with its name, its host and its kind, and a custom endpoint that sets tip
/// and wallet with both.
pub proof fn endpoints_in_words(endpoint: Endpoint)
    ensures
        ({
            let base = endpoint.name@ + " ("@ + host_text(
                parsed_url(endpoint.url@),
                endpoint.url@,
            ) + ") ["@ + match endpoint.kind {
                EndpointKind::Rpc => "rpc"@,
                EndpointKind::Custom => "custom"@,
                EndpointKind::Soyas => "soyas"@,
            } + "]"@;
            let tipped = endpoint.kind == EndpointKind::Custom && endpoint.tip_lamports is Some
                && endpoint.tip_wallet is Some;
            &&& tipped ==> endpoint_text(endpoint) == base + " tip="@ + crate::text::decimal_text(
                endpoint.tip_lamports->0 as nat,
            ) + " to "@ + endpoint.tip_wallet->0@
            &&& !tipped ==> endpoint_text(endpoint) == base
        }),
{
    let base = endpoint.name@ + " ("@ + shown(endpoint.url@) + ") ["@ + endpoint.kind.name() + "]"@;
    if endpoint.kind == EndpointKind::Custom && endpoint.tip_lamports is Some
        && endpoint.tip_wallet is Some {
        assert(endpoint_text(endpoint) =~= base + " tip="@ + crate::text::decimal_text(
            endpoint.tip_lamports->0 as nat,
        ) + " to "@ + endpoint.tip_wallet->0@);
    } else {
        assert(endpoint_text(endpoint) =~= base);
    }
}

/// Endpoints are shown one after the other, in their order, with a comma and a space between.
pub proof fn endpoints_are_joined(endpoints: Seq<Endpoint>, last: Endpoint)
    ensures
        endpoints_text(Seq::empty()).len() == 0,
        endpoints.len() == 0 ==> endpoints_text(endpoints.push(last)) == endpoint_text(last),
        endpoints.len() > 0 ==> endpoints_text(endpoints.push(last)) == endpoints_text(endpoints)
            + ", "@ + endpoint_text(last),
{
    assert(endpoints.push(last).drop_last() =~= endpoints);
}

/// What is shown of an address that parses is its host, or a dash, with a colon and the port behind
/// it where one is given.
pub proof fn parsed_addresses_in_words(host: Seq<char>, port: u16, raw: Seq<char>)
    ensures
        host_text(Some(UrlModel { host: Some(host), port: None }), raw) == host,
        host_text(Some(UrlModel { host: Some(host), port: Some(port) }), raw) == host + seq![':']
            + crate::text::decimal_text(port as nat),
        host_text(Some(UrlModel { host: None, port: None }), raw) == seq!['-'],
        host_text(Some(UrlModel { host: None, port: Some(port) }), raw) == seq!['-', ':']
            + crate::text::decimal_text(port as nat),
        host_text(None, raw) == bare_host(raw),
{
    reveal_strlit("-");
    reveal_strlit(":");
    assert("-"@ =~= seq!['-']);
    assert(":"@ =~= seq![':']);
    assert("-"@ + ":"@ =~= seq!['-', ':']);
}

/// Whether a text holds a colon and two slashes in a row.
pub open spec fn holds_scheme_mark(s: Seq<char>) -> bool {
    exists|i: int|
        0 <= i && i + 2 < s.len() && #[trigger] s[i] == ':' && s[i + 1] == '/' && s[i + 2] == '/'
}

/// Query and fragment of an address that does not parse are not shown: all from the first question
/// mark or hash on makes no difference.
pub proof fn query_and_fragment_are_cut(plain: Seq<char>, rest: Seq<char>)
    requires
        !plain.contains('?'),
        !plain.contains('#'),
    ensures
        bare_host(plain + seq!['?'] + rest) == bare_host(plain),
        bare_host(plain + seq!['#'] + rest) == bare_host(plain),
{
    let asked = plain + seq!['?'] + rest;
    let hashed = plain + seq!['#'] + rest;
    crate::text::cutting_before_a_mark(plain, '?', rest);
    crate::text::cutting_before_a_mark(plain, '#', rest);
    let head = crate::text::before_first(hashed, '?');
    let p = crate::text::position(hashed, '?');
    crate::text::lemma_position(hashed, '?');
    assert(p > plain.len()) by {
        if p < plain.len() {
            assert(plain[p as int] == '?');
            assert(plain.contains('?'));
        }
    }
    assert(head =~= plain + seq!['#'] + head.skip(plain.len() as int + 1));
    crate::text::cutting_before_a_mark(plain, '#', head.skip(plain.len() as int + 1));
}

/// The scheme of an address that does not parse is not shown: a name with a colon and two slashes in
/// front of an address makes no difference.
pub proof fn schemes_are_cut(scheme: Seq<char>, rest: Seq<char>)
    requires
        !scheme.contains(':') && !scheme.contains('?') && !scheme.contains('#'),
        !rest.contains('?') && !rest.contains('#'),
        !holds_scheme_mark(rest),
    ensures
        bare_host(scheme + seq![':', '/', '/'] + rest) == bare_host(rest),
{
    let whole = scheme + seq![':', '/', '/'] + rest;
    lemma_holds(scheme + seq![':', '/', '/'], rest);
    lemma_holds(scheme, seq![':', '/', '/']);
    crate::text::cutting_before_a_mark(whole, '?', Seq::empty());
    crate::text::cutting_before_a_mark(whole, '#', Seq::empty());
    crate::text::cutting_before_a_mark(rest, '?', Seq::empty());
    crate::text::cutting_before_a_mark(rest, '#', Seq::empty());
    crate::text::cutting_a_scheme(scheme, rest);
    crate::text::lemma_no_scheme(rest);
}

/// Credentials in an address that does not parse are not shown: all up to the last at sign makes no
/// difference.
pub proof fn credentials_are_cut(credentials: Seq<char>, rest: Seq<char>)
    requires
        !credentials.contains('?') && !credentials.contains('#'),
        !rest.contains('?') && !rest.contains('#') && !rest.contains('@'),
        !holds_scheme_mark(credentials + seq!['@'] + rest),
    ensures
        bare_host(credentials + seq!['@'] + rest) == bare_host(rest),
{
    let whole = credentials + seq!['@'] + rest;
    lemma_holds(credentials + seq!['@'], rest);
    lemma_holds(credentials, seq!['@']);
    crate::text::cutting_before_a_mark(whole, '?', Seq::empty());
    crate::text::cutting_before_a_mark(whole, '#', Seq::empty());
    crate::text::cutting_before_a_mark(rest, '?', Seq::empty());
    crate::text::cutting_before_a_mark(rest, '#', Seq::empty());
    crate::text::lemma_no_scheme(whole);
    if holds_scheme_mark(rest) {
        let i = choose|i: int|
            0 <= i && i + 2 < rest.len() && #[trigger] rest[i] == ':' && rest[i + 1] == '/'
                && rest[i + 2] == '/';
        let k = i + credentials.len() + 1;
        assert(whole[k] == ':' && whole[k + 1] == '/' && whole[k + 2] == '/');
    }
    crate::text::lemma_no_scheme(rest);
    crate::text::cutting_behind_a_mark(credentials, '@', rest);
}

/// What is left of an address that does not parse is its host: without a path it is shown as it
/// stands, with a path up to the first slash, and a dash where there is nothing to show.
pub proof fn hosts_are_shown(host: Seq<char>, path: Seq<char>)
    requires
        is_bare(host),
        !path.contains('@') && !path.contains('?') && !path.contains('#'),
        !holds_scheme_mark(host + seq!['/'] + path),
    ensures
        host.len() > 0 ==> bare_host(host) == host && bare_host(host + seq!['/'] + path) == host,
        host.len() == 0 ==> bare_host(host) == seq!['-'] && bare_host(host + seq!['/'] + path)
            == seq!['-'],
{
    let whole = host + seq!['/'] + path;
    reveal_strlit("-");
    assert("-"@ =~= seq!['-']);
    lemma_holds(host + seq!['/'], path);
    lemma_holds(host, seq!['/']);
    crate::text::cutting_before_a_mark(whole, '?', Seq::empty());
    crate::text::cutting_before_a_mark(whole, '#', Seq::empty());
    crate::text::lemma_no_scheme(whole);
    crate::text::cutting_behind_a_mark(Seq::empty(), '@', whole);
    crate::text::cutting_before_a_mark(host, '/', path);
    crate::text::cutting_before_a_mark(host, '?', Seq::empty());
    crate::text::cutting_before_a_mark(host, '#', Seq::empty());
    crate::text::cutting_behind_a_mark(Seq::empty(), '@', host);
    if holds_scheme_mark(host) {
        let i = choose|i: int|
            0 <= i && i + 2 < host.len() && #[trigger] host[i] == ':' && host[i + 1] == '/'
                && host[i + 2] == '/';
        assert(host.contains(host[i + 1]));
    }
    crate::text::lemma_no_scheme(host);
}

proof fn lemma_holds(a: Seq<char>, b: Seq<char>)
    ensures
        forall|c: char| #[trigger] (a + b).contains(c) ==> a.contains(c) || b.contains(c),
{
    assert forall|c: char| #[trigger] (a + b).contains(c) implies a.contains(c) || b.contains(
        c,
    ) by {
        let i = choose|i: int| 0 <= i < (a + b).len() && (a + b)[i] == c;
        if i < a.len() {
            assert(a[i] == c);
        } else {
            assert(b[i - a.len()] == c);
        }
    }
}

/// What was parsed of an address says its host and its port.
pub proof fn parsed_addresses_say_all(url: ParsedUrl)
    ensures
        url@.port == url.port,
        url.host matches Some(host) ==> url@.host == Some(host@),
        url.host is None ==> url@.host is None,
{
}

} // verus!
