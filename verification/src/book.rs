//! The record of a run: what was sent, what landed, and who waits for it.

use crate::stats::{compute_overall, sorted, OverallLatency};
use crate::table::Table;
use crate::text::{cut_before, is_name_before, same_text};
use vstd::hash_map::StringHashMap;
use vstd::hash_set::StringHashSet;
use vstd::prelude::*;
use vstd::string::*;

verus! {

/// A memo seen on the stream.
#[derive(Debug, Clone)]
pub struct MemoObservation {
    pub signature: String,
    pub memo: String,
    /// Nanoseconds since the start of the run.
    pub elapsed_since_start: u64,
}

/// A transaction that was sent.
#[derive(Debug)]
pub struct SendRecord {
    pub provider: String,
    /// Nanoseconds since the start of the run.
    pub sent_elapsed: u64,
    pub round_id: String,
}

/// What a send record says.
pub struct SendModel {
    pub provider: Seq<char>,
    pub sent_elapsed: u64,
    pub round_id: Seq<char>,
}

impl View for SendRecord {
    type V = SendModel;

    open spec fn view(&self) -> SendModel {
        SendModel {
            provider: self.provider@,
            sent_elapsed: self.sent_elapsed,
            round_id: self.round_id@,
        }
    }
}

/// What a provider has won so far.
#[derive(Debug)]
pub struct ProviderMetrics {
    pub landed: usize,
    /// Nanoseconds from sending to landing, in the order of landing.
    pub latencies: Vec<u64>,
}

/// What a provider has won so far.
#[verifier::ext_equal]
pub struct MetricsModel {
    pub landed: nat,
    pub latencies: Seq<u64>,
}

impl View for ProviderMetrics {
    type V = MetricsModel;

    open spec fn view(&self) -> MetricsModel {
        MetricsModel { landed: self.landed as nat, latencies: self.latencies@ }
    }
}

impl MetricsModel {
    /// What a provider has won that has not landed anything.
    pub open spec fn none() -> MetricsModel {
        MetricsModel { landed: 0, latencies: Seq::empty() }
    }

    /// What a provider has won after one more landing.
    pub open spec fn after(self, latency: u64) -> MetricsModel {
        MetricsModel { landed: self.landed + 1, latencies: self.latencies.push(latency) }
    }
}

impl Default for ProviderMetrics {
    fn default() -> (metrics: Self)
        ensures
            metrics@ == MetricsModel::none(),
    {
        ProviderMetrics { landed: 0, latencies: Vec::new() }
    }
}

/// The record of a run. `W` is what a single send waits on, `N` what the sends of a round wait on.
#[verifier::reject_recursive_types(W)]
#[verifier::reject_recursive_types(N)]
pub struct LandingBook<W, N> {
    sent: StringHashMap<SendRecord>,
    metrics: Table<ProviderMetrics>,
    rounds_attempted: usize,
    landed_rounds: StringHashSet,
    waiters: Table<W>,
    round_notifiers: Table<N>,
}

/// The record of a run, as maps and sets.
#[verifier::ext_equal]
#[verifier::reject_recursive_types(W)]
#[verifier::reject_recursive_types(N)]
pub struct BookModel<W, N> {
    /// Sends that were not observed yet, by signature.
    pub sent: Map<Seq<char>, SendModel>,
    /// Wins by provider.
    pub metrics: Map<Seq<char>, MetricsModel>,
    /// Rounds that were started.
    pub rounds: nat,
    /// Rounds of which a transaction landed.
    pub landed_rounds: Set<Seq<char>>,
    /// Who waits for a send, by signature.
    pub waiters: Map<Seq<char>, W>,
    /// Who waits for a round, by round.
    pub notifiers: Map<Seq<char>, N>,
}

/// What became of an observed memo.
#[derive(Debug)]
pub enum Landing<W, N> {
    /// No send under this signature is open.
    Unknown,
    /// The memo names another provider than the one that the transaction was sent to.
    Mismatch { expected: String },
    /// The send landed. The waiters are to be told.
    Landed { provider: String, latency: u64, waiter: Option<W>, notifier: Option<N> },
}

/// The time from sending to landing; zero where the clocks disagree.
pub open spec fn latency_of(sent: u64, seen: u64) -> u64 {
    if seen >= sent {
        (seen - sent) as u64
    } else {
        0
    }
}

/// The provider that a memo names: all before its first bar.
pub open spec fn memo_provider(memo: Seq<char>) -> Seq<char> {
    crate::text::before_first(memo, '|')
}

/// The value under a key of a map, if there is one.
pub open spec fn lookup<V>(map: Map<Seq<char>, V>, key: Seq<char>) -> Option<V> {
    if map.dom().contains(key) {
        Some(map[key])
    } else {
        None
    }
}

/// A map that holds `value` under `key` unless something stands there already.
pub open spec fn or_insert<V>(map: Map<Seq<char>, V>, key: Seq<char>, value: V) -> Map<
    Seq<char>,
    V,
> {
    if map.dom().contains(key) {
        map
    } else {
        map.insert(key, value)
    }
}

impl<W, N> BookModel<W, N> {
    /// The record before anything was sent.
    pub open spec fn empty() -> BookModel<W, N> {
        BookModel {
            sent: Map::empty(),
            metrics: Map::empty(),
            rounds: 0,
            landed_rounds: Set::empty(),
            waiters: Map::empty(),
            notifiers: Map::empty(),
        }
    }

    /// The record after a round was started.
    pub open spec fn after_start(self, round_id: Seq<char>, fresh: N) -> BookModel<W, N> {
        BookModel {
            rounds: self.rounds + 1,
            notifiers: or_insert(self.notifiers, round_id, fresh),
            ..self
        }
    }

    /// The record after a transaction was sent.
    pub open spec fn after_send(
        self,
        signature: Seq<char>,
        send: SendModel,
        waiter: W,
        fresh: N,
    ) -> BookModel<W, N> {
        BookModel {
            sent: self.sent.insert(signature, send),
            metrics: or_insert(self.metrics, send.provider, MetricsModel::none()),
            waiters: self.waiters.insert(signature, waiter),
            notifiers: or_insert(self.notifiers, send.round_id, fresh),
            ..self
        }
    }

    /// Whether a memo reports the landing of an open send.
    pub open spec fn lands(self, signature: Seq<char>, memo: Seq<char>) -> bool {
        self.sent.dom().contains(signature) && memo_provider(memo) == self.sent[signature].provider
    }

    /// What a provider has won so far.
    pub open spec fn won(self, provider: Seq<char>) -> MetricsModel {
        if self.metrics.dom().contains(provider) {
            self.metrics[provider]
        } else {
            MetricsModel::none()
        }
    }

    /// The record after a memo was observed. Whatever the memo says, the send under its signature
    /// is closed; only where it names that send's provider does anything else change.
    pub open spec fn after_landing(
        self,
        signature: Seq<char>,
        memo: Seq<char>,
        seen: u64,
    ) -> BookModel<W, N> {
        if !self.lands(signature, memo) {
            BookModel { sent: self.sent.remove(signature), ..self }
        } else {
            let send = self.sent[signature];
            BookModel {
                sent: self.sent.remove(signature),
                metrics: self.metrics.insert(
                    send.provider,
                    self.won(send.provider).after(latency_of(send.sent_elapsed, seen)),
                ),
                landed_rounds: self.landed_rounds.insert(send.round_id),
                waiters: self.waiters.remove(signature),
                notifiers: self.notifiers.remove(send.round_id),
                ..self
            }
        }
    }
}

/// What a provider won in a run.
#[derive(Debug)]
pub struct ProviderSummary {
    pub name: String,
    pub landed: usize,
    /// Nanoseconds from sending to landing, ascending.
    pub latencies: Vec<u64>,
}

/// The outcome of a run.
#[derive(Debug)]
pub struct LandingSummary {
    pub providers: Vec<ProviderSummary>,
    pub total_landed: usize,
    pub overall: OverallLatency,
    pub rounds: usize,
}

impl ProviderSummary {
    /// Sums up what a provider has won.
    pub fn from_metrics(name: String, metrics: &ProviderMetrics) -> (summary: ProviderSummary)
        ensures
            summary.name@ == name@,
            summary.landed == metrics.landed,
            summary.latencies@ == crate::stats::in_order(metrics.latencies@),
    {
        ProviderSummary { name, landed: metrics.landed, latencies: sorted(&metrics.latencies) }
    }
}

proof fn lemma_view_insert<V: View>(map: Map<Seq<char>, V>, key: Seq<char>, value: V)
    ensures
        map.insert(key, value).map_values(|v: V| v@) == map.map_values(|v: V| v@).insert(
            key,
            value@,
        ),
{
    assert(map.insert(key, value).map_values(|v: V| v@) =~= map.map_values(|v: V| v@).insert(
        key,
        value@,
    ));
}

proof fn lemma_view_remove<V: View>(map: Map<Seq<char>, V>, key: Seq<char>)
    ensures
        map.remove(key).map_values(|v: V| v@) == map.map_values(|v: V| v@).remove(key),
{
    assert(map.remove(key).map_values(|v: V| v@) =~= map.map_values(|v: V| v@).remove(key));
}

impl<W, N> View for LandingBook<W, N> {
    type V = BookModel<W, N>;

    closed spec fn view(&self) -> BookModel<W, N> {
        BookModel {
            sent: self.sent@.map_values(|r: SendRecord| r@),
            metrics: self.metrics@.map_values(|m: ProviderMetrics| m@),
            rounds: self.rounds_attempted as nat,
            landed_rounds: self.landed_rounds@,
            waiters: self.waiters@,
            notifiers: self.round_notifiers@,
        }
    }
}

impl<W, N> LandingBook<W, N> {
    /// The parts of the record are in order, and what they say is sound.
    pub closed spec fn well_formed(&self) -> bool {
        &&& self.metrics.well_formed()
        &&& self.waiters.well_formed()
        &&& self.round_notifiers.well_formed()
        &&& self@.sound()
    }

    /// Every record that the operations below make is sound.
    pub proof fn record_is_sound(&self)
        requires
            self.well_formed(),
        ensures
            self@.sound(),
    {
    }

    /// A record in which nothing was sent.
    pub fn new() -> (book: LandingBook<W, N>)
        ensures
            book.well_formed(),
            book@ == BookModel::<W, N>::empty(),
            book@.rounds == 0,
            forall|key: Seq<char>| !#[trigger] book@.sent.dom().contains(key),
            forall|key: Seq<char>| !#[trigger] book@.metrics.dom().contains(key),
            forall|key: Seq<char>| !#[trigger] book@.landed_rounds.contains(key),
            forall|key: Seq<char>| !#[trigger] book@.waiters.dom().contains(key),
            forall|key: Seq<char>| !#[trigger] book@.notifiers.dom().contains(key),
    {
        let book = LandingBook {
            sent: StringHashMap::new(),
            metrics: Table::new(),
            rounds_attempted: 0,
            landed_rounds: StringHashSet::new(),
            waiters: Table::new(),
            round_notifiers: Table::new(),
        };
        assert(book@ =~= BookModel::<W, N>::empty());
        book
    }

    /// The number of rounds that were started.
    pub fn rounds_attempted(&self) -> (rounds: usize)
        requires
            self.well_formed(),
        ensures
            rounds == self@.rounds,
    {
        self.rounds_attempted
    }

    /// Who waits for a round.
    pub fn round_notifier(&self, round_id: &String) -> (notifier: Option<&N>)
        requires
            self.well_formed(),
        ensures
            match notifier {
                Some(n) => lookup(self@.notifiers, round_id@) == Some(*n),
                None => lookup(self@.notifiers, round_id@) is None,
            },
            notifier is Some <==> self@.notifiers.dom().contains(round_id@),
            notifier matches Some(n) ==> *n == self@.notifiers[round_id@],
    {
        self.round_notifiers.get(round_id)
    }

    fn notify_by(&mut self, round_id: String, fresh: N)
        requires
            old(self).well_formed(),
        ensures
            final(self).well_formed(),
            final(self)@ == (BookModel {
                notifiers: or_insert(old(self)@.notifiers, round_id@, fresh),
                ..old(self)@
            }),
    {
        if self.round_notifiers.get(&round_id).is_none() {
            self.round_notifiers.insert(round_id, fresh);
        }
    }

    /// Starts a round. `fresh` is what its sends will wait on, unless the round has that already.
    pub fn start_round(&mut self, round_id: String, fresh: N)
        requires
            old(self).well_formed(),
            old(self)@.rounds < usize::MAX,
        ensures
            final(self).well_formed(),
            final(self)@ == old(self)@.after_start(round_id@, fresh),
    {
        proof {
            start_keeps_sound(self@, round_id@, fresh);
        }
        self.rounds_attempted = self.rounds_attempted + 1;
        self.notify_by(round_id, fresh);
    }

    /// Records a transaction that was sent. `waiter` is told when it lands; `fresh` is what the
    /// sends of its round wait on, unless the round has that already.
    pub fn record_send(
        &mut self,
        signature: String,
        provider: String,
        sent_elapsed: u64,
        round_id: String,
        waiter: W,
        fresh: N,
    )
        requires
            old(self).well_formed(),
        ensures
            final(self).well_formed(),
            final(self)@ == old(self)@.after_send(
                signature@,
                (SendModel { provider: provider@, sent_elapsed, round_id: round_id@ }),
                waiter,
                fresh,
            ),
    {
        let ghost send = SendModel { provider: provider@, sent_elapsed, round_id: round_id@ };
        proof {
            send_keeps_sound(self@, signature@, send, waiter, fresh);
        }
        self.notify_by(round_id.clone(), fresh);
        let record = SendRecord { provider: provider.clone(), sent_elapsed, round_id };
        proof {
            lemma_view_insert(self.sent@, signature@, record);
        }
        self.sent.insert(signature.clone(), record);
        if self.metrics.get(&provider).is_none() {
            let metrics = ProviderMetrics::default();
            proof {
                lemma_view_insert(self.metrics@, provider@, metrics);
            }
            self.metrics.insert(provider, metrics);
        }
        self.waiters.insert(signature, waiter);
    }

    /// Takes note of an observed memo.
    pub fn record_landing(&mut self, obs: &MemoObservation) -> (landing: Landing<W, N>)
        requires
            old(self).well_formed(),
        ensures
            final(self).well_formed(),
            final(self)@ == old(self)@.after_landing(
                obs.signature@,
                obs.memo@,
                obs.elapsed_since_start,
            ),
            match landing {
                Landing::Unknown => !old(self)@.sent.dom().contains(obs.signature@),
                Landing::Mismatch { expected } => {
                    &&& old(self)@.sent.dom().contains(obs.signature@)
                    &&& !old(self)@.lands(obs.signature@, obs.memo@)
                    &&& expected@ == old(self)@.sent[obs.signature@].provider
                },
                Landing::Landed { provider, latency, waiter, notifier } => {
                    let send = old(self)@.sent[obs.signature@];
                    &&& old(self)@.lands(obs.signature@, obs.memo@)
                    &&& provider@ == send.provider
                    &&& latency == latency_of(send.sent_elapsed, obs.elapsed_since_start)
                    &&& waiter == lookup(old(self)@.waiters, obs.signature@)
                    &&& notifier == lookup(old(self)@.notifiers, send.round_id)
                    &&& old(self)@.sent.dom().contains(obs.signature@)
                    &&& send.sent_elapsed <= obs.elapsed_since_start ==> send.sent_elapsed + latency
                        == obs.elapsed_since_start
                    &&& send.sent_elapsed > obs.elapsed_since_start ==> latency == 0
                    &&& waiter is Some <==> old(self)@.waiters.dom().contains(obs.signature@)
                    &&& waiter matches Some(w) ==> w == old(self)@.waiters[obs.signature@]
                    &&& notifier is Some <==> old(self)@.notifiers.dom().contains(send.round_id)
                    &&& notifier matches Some(n) ==> n == old(self)@.notifiers[send.round_id]
                },
            },
            landing is Landed <==> {
                let provider = old(self)@.sent[obs.signature@].provider;
                let n = provider.len() as int;
                &&& old(self)@.sent.dom().contains(obs.signature@)
                &&& !provider.contains('|')
                &&& obs.memo@ == provider || (obs.memo@.len() > n && obs.memo@.take(n) == provider
                    && obs.memo@[n] == '|')
            },
    {
        let ghost next = self@.after_landing(
            obs.signature@,
            obs.memo@,
            obs.elapsed_since_start,
        );
        proof {
            landing_keeps_sound(self@, obs.signature@, obs.memo@, obs.elapsed_since_start);
            memo_names_one_provider(obs.memo@, self@.sent[obs.signature@].provider);
            lemma_view_remove(self.sent@, obs.signature@);
        }
        let send = match self.sent.get(obs.signature.as_str()) {
            Some(send) => SendRecord {
                provider: send.provider.clone(),
                sent_elapsed: send.sent_elapsed,
                round_id: send.round_id.clone(),
            },
            None => {
                assert(self@.sent.remove(obs.signature@) =~= self@.sent);
                return Landing::Unknown;
            },
        };
        self.sent.remove(obs.signature.as_str());
        if !same_text(cut_before(obs.memo.as_str(), '|'), send.provider.as_str()) {
            return Landing::Mismatch { expected: send.provider };
        }
        let latency: u64 = if obs.elapsed_since_start >= send.sent_elapsed {
            obs.elapsed_since_start - send.sent_elapsed
        } else {
            0
        };
        let mut metrics = match self.metrics.remove(&send.provider) {
            Some(metrics) => metrics,
            None => ProviderMetrics::default(),
        };
        metrics.latencies.push(latency);
        assert(metrics.latencies.len() == metrics.landed + 1);
        metrics.landed = metrics.landed + 1;
        self.metrics.insert(send.provider.clone(), metrics);
        let _ = self.landed_rounds.insert(send.round_id.clone());
        let waiter = self.waiters.remove(&obs.signature);
        let notifier = self.round_notifiers.remove(&send.round_id);
        assert(self@ =~= next);
        Landing::Landed { provider: send.provider, latency, waiter, notifier }
    }
}

/// The landing times of all providers, one provider after the other.
pub open spec fn all_latencies(providers: Seq<ProviderSummary>) -> Seq<u64>
    decreases providers.len(),
{
    if providers.len() == 0 {
        Seq::empty()
    } else {
        all_latencies(providers.drop_last()) + providers.last().latencies@
    }
}

/// Whether providers stand in the order of their names, none twice.
pub open spec fn by_name(providers: Seq<ProviderSummary>) -> bool {
    forall|i: int, j: int|
        0 <= i < j < providers.len() ==> crate::text::name_before(
            (#[trigger] providers[i]).name@,
            (#[trigger] providers[j]).name@,
        )
}

/// Whether the summary of a provider says what it won.
pub open spec fn tells(summary: ProviderSummary, metrics: Map<Seq<char>, MetricsModel>) -> bool {
    &&& metrics.dom().contains(summary.name@)
    &&& summary.landed == metrics[summary.name@].landed
    &&& summary.latencies@ == crate::stats::in_order(metrics[summary.name@].latencies)
}

/// Whether a name is among the providers.
pub open spec fn names(providers: Seq<ProviderSummary>, name: Seq<char>) -> bool {
    exists|i: int| 0 <= i < providers.len() && (#[trigger] providers[i]).name@ == name
}

/// Whether a summary sums up a record: every provider once, in the order of the names, with its
/// wins; the rounds that landed and those that were started; and the figures of all landings.
pub open spec fn sums_up<W, N>(summary: LandingSummary, book: BookModel<W, N>) -> bool {
    &&& by_name(summary.providers@)
    &&& forall|i: int|
        0 <= i < summary.providers@.len() ==> tells(#[trigger] summary.providers@[i], book.metrics)
    &&& forall|name: Seq<char>| #[trigger]
        book.metrics.dom().contains(name) ==> names(summary.providers@, name)
    &&& summary.total_landed == book.landed_rounds.len()
    &&& summary.rounds == book.rounds
    &&& summary.overall == crate::stats::overall_of(all_latencies(summary.providers@))
}

/// Adds a provider to others in the order of the names.
fn place(providers: &mut Vec<ProviderSummary>, summary: ProviderSummary)
    requires
        by_name(old(providers)@),
        !names(old(providers)@, summary.name@),
    ensures
        by_name(final(providers)@),
        exists|at: int|
            0 <= at <= old(providers)@.len() && final(providers)@ == #[trigger] old(
                providers,
            )@.insert(at, summary),
{
    let ghost before = providers@;
    let ghost name = summary.name@;
    let mut at: usize = providers.len();
    while at > 0 && is_name_before(summary.name.as_str(), providers[at - 1].name.as_str())
        invariant
            at <= providers@.len(),
            providers@ == before,
            name == summary.name@,
            forall|j: int|
                at <= j < before.len() ==> crate::text::name_before(
                    name,
                    (#[trigger] before[j]).name@,
                ),
        decreases at,
    {
        at -= 1;
    }
    proof {
        if at > 0 {
            crate::text::lemma_name_before_total(before[at - 1].name@, name);
        }
        assert forall|j: int| 0 <= j < at implies crate::text::name_before(
            (#[trigger] before[j]).name@,
            name,
        ) by {
            if j < at - 1 {
                crate::text::lemma_name_before_transitive(
                    before[j].name@,
                    before[at - 1].name@,
                    name,
                );
            }
        }
    }
    providers.insert(at, summary);
    assert(providers@ == before.insert(at as int, summary));
}

/// The landing times of all providers, one provider after the other.
fn gather(providers: &Vec<ProviderSummary>) -> (latencies: Vec<u64>)
    ensures
        latencies@ == all_latencies(providers@),
{
    let mut latencies: Vec<u64> = Vec::new();
    let mut i: usize = 0;
    while i < providers.len()
        invariant
            i <= providers.len(),
            latencies@ == all_latencies(providers@.take(i as int)),
        decreases providers.len() - i,
    {
        let ghost before = latencies@;
        latencies.extend_from_slice(providers[i].latencies.as_slice());
        proof {
            assert(latencies@ == before + providers@[i as int].latencies@);
            assert(providers@.take(i + 1).drop_last() == providers@.take(i as int));
        }
        i += 1;
    }
    assert(providers@.take(providers.len() as int) == providers@);
    latencies
}

impl<W, N> LandingBook<W, N> {
    /// Sums up the run.
    pub fn finalize(&self) -> (summary: LandingSummary)
        requires
            self.well_formed(),
        ensures
            sums_up(summary, self@),
            summary.rounds == self@.rounds,
            summary.total_landed == self@.landed_rounds.len(),
    {
        let mut providers: Vec<ProviderSummary> = Vec::new();
        let n: usize = self.metrics.len();
        let mut i: usize = 0;
        proof {
            self.metrics.lemma_entries();
        }
        while i < n
            invariant
                i <= n,
                n == self.metrics.size(),
                self.well_formed(),
                by_name(providers@),
                forall|k: int|
                    0 <= k < providers@.len() ==> tells(#[trigger] providers@[k], self@.metrics),
                forall|k: int|
                    0 <= k < providers@.len() ==> exists|j: int|
                        0 <= j < i && #[trigger] self.metrics.name_at(j) == (
                        #[trigger] providers@[k]).name@,
                forall|j: int|
                    0 <= j < i ==> names(providers@, #[trigger] self.metrics.name_at(j)),
            decreases n - i,
        {
            let entry = self.metrics.entry(i);
            let summary = ProviderSummary::from_metrics(entry.0.clone(), entry.1);
            let ghost before = providers@;
            proof {
                self.metrics.lemma_entries();
                if names(before, summary.name@) {
                    let k = choose|k: int|
                        0 <= k < before.len() && (#[trigger] before[k]).name@ == summary.name@;
                    let j = choose|j: int|
                        0 <= j < i && #[trigger] self.metrics.name_at(j) == before[k].name@;
                    assert(self.metrics.name_at(j) != self.metrics.name_at(i as int));
                }
            }
            place(&mut providers, summary);
            proof {
                let at = choose|at: int|
                    0 <= at <= before.len() && providers@ == #[trigger] before.insert(at, summary);
                assert(providers@[at] == summary);
                assert forall|k: int| 0 <= k < providers@.len() implies tells(
                    #[trigger] providers@[k],
                    self@.metrics,
                ) && exists|j: int|
                    0 <= j < i + 1 && #[trigger] self.metrics.name_at(j)
                        == providers@[k].name@ by {
                    if k < at {
                        assert(providers@[k] == before[k]);
                    } else if k > at {
                        assert(providers@[k] == before[k - 1]);
                    } else {
                        assert(self.metrics.name_at(i as int) == summary.name@);
                    }
                }
                assert forall|j: int| 0 <= j < i + 1 implies names(
                    providers@,
                    #[trigger] self.metrics.name_at(j),
                ) by {
                    if j < i {
                        let k = choose|k: int|
                            0 <= k < before.len() && (#[trigger] before[k]).name@
                                == self.metrics.name_at(j);
                        if k < at {
                            assert(providers@[k] == before[k]);
                        } else {
                            assert(providers@[k + 1] == before[k]);
                        }
                    }
                }
            }
            i += 1;
        }
        let latencies = gather(&providers);
        LandingSummary {
            providers,
            total_landed: self.landed_rounds.len(),
            overall: compute_overall(&latencies),
            rounds: self.rounds_attempted,
        }
    }
}

/// The wins of all providers together.
pub open spec fn total_wins(metrics: Map<Seq<char>, MetricsModel>) -> nat
    decreases metrics.dom().len(),
    when metrics.dom().finite()
{
    if metrics.dom().len() == 0 {
        0
    } else {
        let name = metrics.dom().choose();
        metrics[name].landed + total_wins(metrics.remove(name))
    }
}

proof fn lemma_total_wins(metrics: Map<Seq<char>, MetricsModel>, name: Seq<char>)
    requires
        metrics.dom().finite(),
        metrics.dom().contains(name),
    ensures
        total_wins(metrics) == metrics[name].landed + total_wins(metrics.remove(name)),
    decreases metrics.dom().len(),
{
    let first = metrics.dom().choose();
    assert(metrics.dom().contains(first));
    if first != name {
        lemma_total_wins(metrics.remove(first), name);
        lemma_total_wins(metrics.remove(name), first);
        assert(metrics.remove(first).remove(name) =~= metrics.remove(name).remove(first));
    }
}

proof fn lemma_total_wins_insert(
    metrics: Map<Seq<char>, MetricsModel>,
    name: Seq<char>,
    value: MetricsModel,
)
    requires
        metrics.dom().finite(),
    ensures
        total_wins(metrics.insert(name, value)) == value.landed + total_wins(metrics.remove(name)),
        metrics.dom().contains(name) ==> total_wins(metrics) == metrics[name].landed + total_wins(
            metrics.remove(name),
        ),
        !metrics.dom().contains(name) ==> metrics.remove(name) == metrics,
{
    let more = metrics.insert(name, value);
    lemma_total_wins(more, name);
    assert(more.remove(name) =~= metrics.remove(name));
    if metrics.dom().contains(name) {
        lemma_total_wins(metrics, name);
    } else {
        assert(metrics.remove(name) =~= metrics);
    }
}

impl<W, N> BookModel<W, N> {
    /// What holds of every record: each provider has as many latencies as wins, no more rounds have
    /// landed than there were wins, and the provider of every open send is known.
    pub open spec fn sound(self) -> bool {
        &&& self.metrics.dom().finite()
        &&& self.landed_rounds.finite()
        &&& forall|name: Seq<char>| #[trigger]
            self.metrics.dom().contains(name) ==> self.metrics[name].landed
                == self.metrics[name].latencies.len()
        &&& self.landed_rounds.len() <= total_wins(self.metrics)
        &&& forall|signature: Seq<char>| #[trigger]
            self.sent.dom().contains(signature) ==> self.metrics.dom().contains(
                self.sent[signature].provider,
            )
    }
}

/// The empty record is sound.
pub proof fn empty_is_sound<W, N>()
    ensures
        BookModel::<W, N>::empty().sound(),
{
}

/// Starting a round keeps a record sound, counts one round, and changes nothing that was sent or
/// won.
pub proof fn start_keeps_sound<W, N>(book: BookModel<W, N>, round_id: Seq<char>, fresh: N)
    requires
        book.sound(),
    ensures
        ({
            let next = book.after_start(round_id, fresh);
            &&& next.sound()
            &&& next.rounds == book.rounds + 1
            &&& next.sent == book.sent
            &&& next.metrics == book.metrics
            &&& next.landed_rounds == book.landed_rounds
            &&& next.notifiers.dom().contains(round_id)
        }),
{
}

/// Sending keeps a record sound and changes nobody's wins; the provider is known from then on.
pub proof fn send_keeps_sound<W, N>(
    book: BookModel<W, N>,
    signature: Seq<char>,
    send: SendModel,
    waiter: W,
    fresh: N,
)
    requires
        book.sound(),
    ensures
        ({
            let next = book.after_send(signature, send, waiter, fresh);
            &&& next.sound()
            &&& next.rounds == book.rounds
            &&& next.landed_rounds == book.landed_rounds
            &&& next.metrics.dom().contains(send.provider)
            &&& forall|name: Seq<char>| #[trigger] next.won(name) == book.won(name)
            &&& total_wins(next.metrics) == total_wins(book.metrics)
        }),
{
    if !book.metrics.dom().contains(send.provider) {
        lemma_total_wins_insert(book.metrics, send.provider, MetricsModel::none());
    }
}

/// Observing a memo keeps a record sound. A landing adds one win, to the provider that the
/// transaction was sent to, and at most one landed round; any other memo adds none.
pub proof fn landing_keeps_sound<W, N>(
    book: BookModel<W, N>,
    signature: Seq<char>,
    memo: Seq<char>,
    seen: u64,
)
    requires
        book.sound(),
    ensures
        ({
            let next = book.after_landing(signature, memo, seen);
            let provider = book.sent[signature].provider;
            &&& next.sound()
            &&& next.rounds == book.rounds
            &&& book.lands(signature, memo) ==> {
                &&& total_wins(next.metrics) == total_wins(book.metrics) + 1
                &&& next.won(provider).landed == book.won(provider).landed + 1
                &&& forall|name: Seq<char>|
                    name != provider ==> #[trigger] next.won(name) == book.won(name)
                &&& book.landed_rounds.len() <= next.landed_rounds.len()
                    <= book.landed_rounds.len() + 1
            }
            &&& !book.lands(signature, memo) ==> {
                &&& next.metrics == book.metrics
                &&& next.landed_rounds == book.landed_rounds
                &&& next.waiters == book.waiters
                &&& next.notifiers == book.notifiers
            }
        }),
{
    if book.lands(signature, memo) {
        let send = book.sent[signature];
        lemma_total_wins_insert(
            book.metrics,
            send.provider,
            book.won(send.provider).after(latency_of(send.sent_elapsed, seen)),
        );
    }
}

/// A send whose memo comes back lands: it counts for its provider with the time that passed, its
/// round counts as landed, and what it and its round wait on is handed out.
pub proof fn sent_memo_lands<W, N>(
    book: BookModel<W, N>,
    signature: Seq<char>,
    send: SendModel,
    waiter: W,
    fresh: N,
    memo: Seq<char>,
    seen: u64,
)
    requires
        memo_provider(memo) == send.provider,
    ensures
        ({
            let sent = book.after_send(signature, send, waiter, fresh);
            let next = sent.after_landing(signature, memo, seen);
            &&& sent.lands(signature, memo)
            &&& sent.sent[signature] == send
            &&& lookup(sent.waiters, signature) == Some(waiter)
            &&& lookup(sent.notifiers, send.round_id) == Some(
                match lookup(book.notifiers, send.round_id) {
                    Some(notifier) => notifier,
                    None => fresh,
                },
            )
            &&& next.won(send.provider) == book.won(send.provider).after(
                latency_of(send.sent_elapsed, seen),
            )
            &&& next.landed_rounds.contains(send.round_id)
            &&& !next.sent.dom().contains(signature)
            &&& !next.waiters.dom().contains(signature)
            &&& !next.notifiers.dom().contains(send.round_id)
        }),
{
}

/// A signature is noted once: a second memo under it changes nothing.
pub proof fn landing_is_noted_once<W, N>(
    book: BookModel<W, N>,
    signature: Seq<char>,
    memo: Seq<char>,
    seen: u64,
    memo2: Seq<char>,
    seen2: u64,
)
    ensures
        ({
            let once = book.after_landing(signature, memo, seen);
            &&& !once.sent.dom().contains(signature)
            &&& once.after_landing(signature, memo2, seen2) == once
        }),
{
    let once = book.after_landing(signature, memo, seen);
    assert(once.sent.remove(signature) =~= once.sent);
    assert(once.after_landing(signature, memo2, seen2) =~= once);
}

/// A round is counted once however many of its transactions are reported.
pub proof fn round_is_counted_once<W, N>(
    book: BookModel<W, N>,
    signature: Seq<char>,
    memo: Seq<char>,
    seen: u64,
)
    requires
        book.lands(signature, memo),
        book.landed_rounds.contains(book.sent[signature].round_id),
    ensures
        book.after_landing(signature, memo, seen).landed_rounds == book.landed_rounds,
{
    let round_id = book.sent[signature].round_id;
    assert(book.landed_rounds.insert(round_id) =~= book.landed_rounds);
}

/// The summary of a record does not depend on the order in which its providers are walked: two
/// summaries of one record name the same providers in the same places.
pub proof fn summary_is_unique<W, N>(a: LandingSummary, b: LandingSummary, book: BookModel<W, N>)
    requires
        sums_up(a, book),
        sums_up(b, book),
    ensures
        a.providers@.len() == b.providers@.len(),
        forall|i: int|
            0 <= i < a.providers@.len() ==> {
                &&& (#[trigger] a.providers@[i]).name@ == b.providers@[i].name@
                &&& a.providers@[i].landed == b.providers@[i].landed
                &&& a.providers@[i].latencies@ == b.providers@[i].latencies@
            },
        a.overall == b.overall,
        a.total_landed == b.total_landed,
        a.rounds == b.rounds,
{
    lemma_same_names(a.providers@, b.providers@, 0);
    lemma_same_latencies(a.providers@, b.providers@);
}

/// Two lists in the order of the names that hold the same names from place `k` on agree there.
proof fn lemma_same_names(a: Seq<ProviderSummary>, b: Seq<ProviderSummary>, k: int)
    requires
        by_name(a),
        by_name(b),
        0 <= k <= a.len(),
        k <= b.len(),
        forall|i: int| k <= i < a.len() ==> names(b, (#[trigger] a[i]).name@),
        forall|i: int| k <= i < b.len() ==> names(a, (#[trigger] b[i]).name@),
        forall|i: int| 0 <= i < k ==> (#[trigger] a[i]).name@ == b[i].name@,
    ensures
        a.len() == b.len(),
        forall|i: int| 0 <= i < a.len() ==> (#[trigger] a[i]).name@ == b[i].name@,
    decreases a.len() - k,
{
    if k < a.len() {
        lemma_behind(a, b, k);
        lemma_behind(b, a, k);
        if a[k].name@ != b[k].name@ {
            crate::text::lemma_name_before_transitive(a[k].name@, b[k].name@, a[k].name@);
            crate::text::lemma_name_before_irreflexive(a[k].name@);
        }
        lemma_same_names(a, b, k + 1);
    } else if k < b.len() {
        lemma_behind(b, a, k);
    }
}

/// Where two lists agree before place `k`, what stands at `k` in the one stands at `k` or later
/// in the other, so that place `k` of the other is not behind it.
proof fn lemma_behind(a: Seq<ProviderSummary>, b: Seq<ProviderSummary>, k: int)
    requires
        by_name(a),
        by_name(b),
        0 <= k < a.len(),
        k <= b.len(),
        names(b, a[k].name@),
        forall|i: int| 0 <= i < k ==> (#[trigger] a[i]).name@ == b[i].name@,
    ensures
        k < b.len(),
        a[k].name@ == b[k].name@ || crate::text::name_before(b[k].name@, a[k].name@),
{
    let j = choose|j: int| 0 <= j < b.len() && (#[trigger] b[j]).name@ == a[k].name@;
    if j < k {
        assert(a[j].name@ == b[j].name@);
        assert(crate::text::name_before(a[j].name@, a[k].name@));
        crate::text::lemma_name_before_irreflexive(a[k].name@);
    } else if j > k {
        assert(crate::text::name_before(b[k].name@, b[j].name@));
    }
}

proof fn lemma_same_latencies(a: Seq<ProviderSummary>, b: Seq<ProviderSummary>)
    requires
        a.len() == b.len(),
        forall|i: int| 0 <= i < a.len() ==> (#[trigger] a[i]).latencies@ == b[i].latencies@,
    ensures
        all_latencies(a) == all_latencies(b),
    decreases a.len(),
{
    if a.len() > 0 {
        assert forall|i: int| 0 <= i < a.len() - 1 implies (#[trigger] a.drop_last()[i]).latencies@
            == b.drop_last()[i].latencies@ by {
            assert(a[i].latencies@ == b[i].latencies@);
        }
        lemma_same_latencies(a.drop_last(), b.drop_last());
        assert(a[a.len() - 1].latencies@ == b[b.len() - 1].latencies@);
    }
}

/// The wins of the providers of a summary together.
pub open spec fn wins_of(providers: Seq<ProviderSummary>) -> nat
    decreases providers.len(),
{
    if providers.len() == 0 {
        0
    } else {
        wins_of(providers.drop_last()) + providers.last().landed as nat
    }
}

/// A summary adds up: the wins of its providers are all the wins of the record, each of them has a
/// landing time among the overall figures, and no more rounds landed than there were wins.
pub proof fn wins_add_up<W, N>(summary: LandingSummary, book: BookModel<W, N>)
    requires
        book.sound(),
        sums_up(summary, book),
    ensures
        wins_of(summary.providers@) == total_wins(book.metrics),
        all_latencies(summary.providers@).len() == wins_of(summary.providers@),
        summary.total_landed <= wins_of(summary.providers@),
{
    lemma_wins_of(summary.providers@, book.metrics);
    lemma_latencies_of(summary.providers@, book.metrics);
}

proof fn lemma_wins_of(providers: Seq<ProviderSummary>, metrics: Map<Seq<char>, MetricsModel>)
    requires
        metrics.dom().finite(),
        by_name(providers),
        forall|i: int| 0 <= i < providers.len() ==> tells(#[trigger] providers[i], metrics),
        forall|name: Seq<char>| #[trigger]
            metrics.dom().contains(name) ==> names(providers, name),
    ensures
        wins_of(providers) == total_wins(metrics),
    decreases providers.len(),
{
    if providers.len() == 0 {
        assert forall|name: Seq<char>| !metrics.dom().contains(name) by {
            if metrics.dom().contains(name) {
                assert(names(providers, name));
            }
        }
        assert(metrics.dom() =~= Set::<Seq<char>>::empty());
    } else {
        let last = providers.last();
        let front = providers.drop_last();
        let rest = metrics.remove(last.name@);
        assert(tells(providers[providers.len() - 1], metrics));
        lemma_total_wins(metrics, last.name@);
        assert forall|i: int| 0 <= i < front.len() implies tells(#[trigger] front[i], rest) by {
            assert(tells(providers[i], metrics));
            assert(crate::text::name_before(
                providers[i].name@,
                providers[providers.len() - 1].name@,
            ));
            crate::text::lemma_name_before_irreflexive(last.name@);
        }
        assert forall|name: Seq<char>| #[trigger] rest.dom().contains(name) implies names(
            front,
            name,
        ) by {
            assert(metrics.dom().contains(name));
            assert(names(providers, name));
            let i = choose|i: int|
                0 <= i < providers.len() && (#[trigger] providers[i]).name@ == name;
            assert(front[i].name@ == name);
        }
        lemma_wins_of(front, rest);
    }
}

proof fn lemma_latencies_of(providers: Seq<ProviderSummary>, metrics: Map<Seq<char>, MetricsModel>)
    requires
        forall|i: int| 0 <= i < providers.len() ==> tells(#[trigger] providers[i], metrics),
        forall|name: Seq<char>| #[trigger]
            metrics.dom().contains(name) ==> metrics[name].landed == metrics[name].latencies.len(),
    ensures
        all_latencies(providers).len() == wins_of(providers),
    decreases providers.len(),
{
    if providers.len() > 0 {
        let last = providers.last();
        let front = providers.drop_last();
        assert(tells(providers[providers.len() - 1], metrics));
        crate::stats::lemma_in_order(metrics[last.name@].latencies);
        assert forall|i: int| 0 <= i < front.len() implies tells(#[trigger] front[i], metrics) by {
            assert(tells(providers[i], metrics));
        }
        lemma_latencies_of(front, metrics);
    }
}

/// A call that changes a record.
#[verifier::reject_recursive_types(W)]
#[verifier::reject_recursive_types(N)]
pub enum Call<W, N> {
    Start { round_id: Seq<char>, fresh: N },
    Send { signature: Seq<char>, send: SendModel, waiter: W, fresh: N },
    Observe { signature: Seq<char>, memo: Seq<char>, seen: u64 },
}

/// The record after some calls on an empty one.
pub open spec fn replay<W, N>(calls: Seq<Call<W, N>>) -> BookModel<W, N>
    decreases calls.len(),
{
    if calls.len() == 0 {
        BookModel::empty()
    } else {
        let before = replay(calls.drop_last());
        match calls.last() {
            Call::Start { round_id, fresh } => before.after_start(round_id, fresh),
            Call::Send { signature, send, waiter, fresh } => before.after_send(
                signature,
                send,
                waiter,
                fresh,
            ),
            Call::Observe { signature, memo, seen } => before.after_landing(signature, memo, seen),
        }
    }
}

/// How many rounds some calls start.
pub open spec fn starts<W, N>(calls: Seq<Call<W, N>>) -> nat
    decreases calls.len(),
{
    if calls.len() == 0 {
        0
    } else {
        starts(calls.drop_last()) + if calls.last() is Start {
            1nat
        } else {
            0
        }
    }
}

/// The sends that land in the course of some calls, each with its landing time.
pub open spec fn landings<W, N>(calls: Seq<Call<W, N>>) -> Seq<(SendModel, u64)>
    decreases calls.len(),
{
    if calls.len() == 0 {
        Seq::empty()
    } else {
        let front = calls.drop_last();
        let before = replay(front);
        match calls.last() {
            Call::Observe { signature, memo, seen } => if before.lands(signature, memo) {
                let send = before.sent[signature];
                landings(front).push((send, latency_of(send.sent_elapsed, seen)))
            } else {
                landings(front)
            },
            _ => landings(front),
        }
    }
}

/// The landing times of one provider, in the order of landing.
pub open spec fn times_of(landings: Seq<(SendModel, u64)>, provider: Seq<char>) -> Seq<u64>
    decreases landings.len(),
{
    if landings.len() == 0 {
        Seq::empty()
    } else if landings.last().0.provider == provider {
        times_of(landings.drop_last(), provider).push(landings.last().1)
    } else {
        times_of(landings.drop_last(), provider)
    }
}

/// Whether a landing belongs to a round.
pub open spec fn landed_in(landings: Seq<(SendModel, u64)>, round_id: Seq<char>) -> bool {
    exists|i: int| 0 <= i < landings.len() && (#[trigger] landings[i]).0.round_id == round_id
}

/// Whether call `i` sends through a provider.
pub open spec fn sends_through<W, N>(calls: Seq<Call<W, N>>, i: int, provider: Seq<char>) -> bool {
    calls[i] matches Call::Send { send, .. } && send.provider == provider
}

/// Whether some calls ever send through a provider.
pub open spec fn ever_sent<W, N>(calls: Seq<Call<W, N>>, provider: Seq<char>) -> bool {
    exists|i: int| 0 <= i < calls.len() && #[trigger] sends_through(calls, i, provider)
}

/// A record says what happened, whatever the calls were and in whatever order they came: its rounds
/// are those that were started, its wins the landings that counted, each provider's with their times
/// in order, its landed rounds the different rounds of those landings, and its providers those that
/// were ever sent to.
pub proof fn record_tells_its_history<W, N>(calls: Seq<Call<W, N>>)
    ensures
        ({
            let book = replay(calls);
            &&& book.sound()
            &&& book.rounds == starts(calls)
            &&& total_wins(book.metrics) == landings(calls).len()
            &&& forall|provider: Seq<char>| #[trigger]
                book.won(provider) == (MetricsModel {
                    landed: times_of(landings(calls), provider).len(),
                    latencies: times_of(landings(calls), provider),
                })
            &&& forall|round_id: Seq<char>| #[trigger]
                book.landed_rounds.contains(round_id) <==> landed_in(landings(calls), round_id)
            &&& forall|provider: Seq<char>| #[trigger]
                book.metrics.dom().contains(provider) <==> ever_sent(calls, provider)
        }),
    decreases calls.len(),
{
    let book = replay(calls);
    if calls.len() == 0 {
        assert forall|provider: Seq<char>| #[trigger] book.won(provider) == (MetricsModel {
            landed: times_of(landings(calls), provider).len(),
            latencies: times_of(landings(calls), provider),
        }) by {
            assert(book.won(provider) =~= MetricsModel::none());
        }
    } else {
        let front = calls.drop_last();
        let before = replay(front);
        record_tells_its_history(front);
        lemma_ever_sent(calls);
        match calls.last() {
            Call::Start { round_id, fresh } => {
                start_keeps_sound(before, round_id, fresh);
                assert forall|provider: Seq<char>| #[trigger] book.won(provider) == before.won(
                    provider,
                ) by {}
            },
            Call::Send { signature, send, waiter, fresh } => {
                send_keeps_sound(before, signature, send, waiter, fresh);
            },
            Call::Observe { signature, memo, seen } => {
                landing_keeps_sound(before, signature, memo, seen);
                lemma_observed(calls, signature, memo, seen);
            },
        }
    }
}

proof fn lemma_ever_sent<W, N>(calls: Seq<Call<W, N>>)
    requires
        calls.len() > 0,
    ensures
        forall|provider: Seq<char>| #[trigger]
            ever_sent(calls, provider) <==> ever_sent(calls.drop_last(), provider)
                || sends_through(calls, calls.len() - 1, provider),
{
    let front = calls.drop_last();
    assert forall|provider: Seq<char>| #[trigger] ever_sent(calls, provider) implies ever_sent(
        front,
        provider,
    ) || sends_through(calls, calls.len() - 1, provider) by {
        let i = choose|i: int| 0 <= i < calls.len() && #[trigger] sends_through(calls, i, provider);
        if i < front.len() {
            assert(sends_through(front, i, provider));
        }
    }
    assert forall|provider: Seq<char>|
        ever_sent(front, provider) || sends_through(
            calls,
            calls.len() - 1,
            provider,
        ) implies #[trigger] ever_sent(calls, provider) by {
        if ever_sent(front, provider) {
            let i = choose|i: int|
                0 <= i < front.len() && #[trigger] sends_through(front, i, provider);
            assert(sends_through(calls, i, provider));
        }
    }
}

/// What the observation of a memo adds to the wins and the landed rounds.
proof fn lemma_observed<W, N>(
    calls: Seq<Call<W, N>>,
    signature: Seq<char>,
    memo: Seq<char>,
    seen: u64,
)
    requires
        calls.len() > 0,
        calls.last() == (Call::<W, N>::Observe { signature, memo, seen }),
        ({
            let before = replay(calls.drop_last());
            let earlier = landings(calls.drop_last());
            &&& before.sound()
            &&& forall|provider: Seq<char>| #[trigger]
                before.won(provider) == (MetricsModel {
                    landed: times_of(earlier, provider).len(),
                    latencies: times_of(earlier, provider),
                })
            &&& forall|round_id: Seq<char>| #[trigger]
                before.landed_rounds.contains(round_id) <==> landed_in(earlier, round_id)
        }),
    ensures
        forall|provider: Seq<char>| #[trigger]
            replay(calls).won(provider) == (MetricsModel {
                landed: times_of(landings(calls), provider).len(),
                latencies: times_of(landings(calls), provider),
            }),
        forall|round_id: Seq<char>| #[trigger]
            replay(calls).landed_rounds.contains(round_id) <==> landed_in(
                landings(calls),
                round_id,
            ),
        replay(calls).metrics.dom() == replay(calls.drop_last()).metrics.dom(),
{
    let before = replay(calls.drop_last());
    let earlier = landings(calls.drop_last());
    let book = replay(calls);
    let all = landings(calls);
    if before.lands(signature, memo) {
        let send = before.sent[signature];
        let latency = latency_of(send.sent_elapsed, seen);
        assert(all.drop_last() =~= earlier);
        assert(all.last() == (send, latency));
        assert forall|provider: Seq<char>| #[trigger] book.won(provider) == (MetricsModel {
            landed: times_of(all, provider).len(),
            latencies: times_of(all, provider),
        }) by {
            assert(before.won(provider).latencies == times_of(earlier, provider));
            if provider == send.provider {
                assert(book.won(provider) == before.won(provider).after(latency));
            } else {
                assert(book.won(provider) == before.won(provider));
            }
        }
        assert forall|round_id: Seq<char>| #[trigger]
            book.landed_rounds.contains(round_id) <==> landed_in(all, round_id) by {
            if book.landed_rounds.contains(round_id) {
                if round_id == send.round_id {
                    assert(all[all.len() - 1].0.round_id == round_id);
                } else {
                    assert(before.landed_rounds.contains(round_id));
                    let i = choose|i: int|
                        0 <= i < earlier.len() && (#[trigger] earlier[i]).0.round_id == round_id;
                    assert(all[i] == earlier[i]);
                }
            }
            if landed_in(all, round_id) {
                let i = choose|i: int|
                    0 <= i < all.len() && (#[trigger] all[i]).0.round_id == round_id;
                if i < earlier.len() {
                    assert(earlier[i] == all[i]);
                    assert(before.landed_rounds.contains(round_id));
                }
            }
        }
        assert(book.metrics.dom() =~= before.metrics.dom());
    } else {
        assert forall|provider: Seq<char>| #[trigger] book.won(provider) == before.won(
            provider,
        ) by {}
    }
}

/// The time noted for a landing, added to the time of sending, is the time it was seen; where it was
/// seen before it was sent, it is zero.
pub proof fn latency_spans_the_time(sent: u64, seen: u64)
    ensures
        sent <= seen ==> sent + latency_of(sent, seen) == seen,
        sent > seen ==> latency_of(sent, seen) == 0,
{
}

/// A memo names a provider exactly where the provider's name holds no bar and the memo is that name,
/// or that name with a bar and anything behind it.
pub proof fn memo_names_one_provider(memo: Seq<char>, provider: Seq<char>)
    ensures
        memo_provider(memo) == provider <==> {
            let n = provider.len() as int;
            &&& !provider.contains('|')
            &&& memo == provider || (memo.len() > n && memo.take(n) == provider && memo[n] == '|')
        },
{
    let n = provider.len() as int;
    let p = crate::text::position(memo, '|');
    crate::text::lemma_position(memo, '|');
    if memo_provider(memo) == provider {
        assert(provider == memo.take(p as int));
        assert(!provider.contains('|')) by {
            if provider.contains('|') {
                let i = choose|i: int| 0 <= i < provider.len() && provider[i] == '|';
                assert(memo[i] == '|');
            }
        }
        if p == memo.len() {
            assert(memo.take(p as int) =~= memo);
        }
    }
    if !provider.contains('|') {
        assert forall|i: int| 0 <= i < n implies provider[i] != '|' by {
            assert(provider.contains(provider[i]));
        }
        if memo == provider {
            crate::text::lemma_position_is(memo, '|', provider.len());
            assert(memo.take(n) =~= provider);
        } else if memo.len() > n && memo.take(n) == provider && memo[n] == '|' {
            assert forall|i: int| 0 <= i < n implies memo[i] != '|' by {
                assert(memo.take(n)[i] == provider[i]);
            }
            crate::text::lemma_position_is(memo, '|', provider.len());
        }
    }
}

/// Starting a round adds one to the rounds and gives the round something to wait on, which is the
/// one it had before where it had one. Nothing else changes.
pub proof fn start_changes_this_only<W, N>(
    book: BookModel<W, N>,
    round_id: Seq<char>,
    fresh: N,
    other: Seq<char>,
)
    ensures
        ({
            let next = book.after_start(round_id, fresh);
            let had = book.notifiers.dom().contains(round_id);
            &&& next.rounds == book.rounds + 1
            &&& next.sent == book.sent
            &&& next.metrics == book.metrics
            &&& next.landed_rounds == book.landed_rounds
            &&& next.waiters == book.waiters
            &&& next.notifiers.dom().contains(round_id)
            &&& had ==> next.notifiers[round_id] == book.notifiers[round_id]
            &&& !had ==> next.notifiers[round_id] == fresh
            &&& other != round_id ==> {
                &&& next.notifiers.dom().contains(other) <==> book.notifiers.dom().contains(other)
                &&& next.notifiers[other] == book.notifiers[other]
            }
        }),
{
}

/// Sending puts the send and its waiter under the signature, makes the provider known, and gives the
/// round something to wait on where it had nothing. Nothing else changes.
pub proof fn send_changes_this_only<W, N>(
    book: BookModel<W, N>,
    signature: Seq<char>,
    send: SendModel,
    waiter: W,
    fresh: N,
    other: Seq<char>,
)
    ensures
        ({
            let next = book.after_send(signature, send, waiter, fresh);
            let known = book.metrics.dom().contains(send.provider);
            let had = book.notifiers.dom().contains(send.round_id);
            &&& next.rounds == book.rounds
            &&& next.landed_rounds == book.landed_rounds
            &&& next.sent.dom().contains(signature) && next.sent[signature] == send
            &&& next.waiters.dom().contains(signature) && next.waiters[signature] == waiter
            &&& next.metrics.dom().contains(send.provider)
            &&& known ==> next.metrics[send.provider] == book.metrics[send.provider]
            &&& !known ==> next.metrics[send.provider].landed == 0
                && next.metrics[send.provider].latencies.len() == 0
            &&& next.notifiers.dom().contains(send.round_id)
            &&& had ==> next.notifiers[send.round_id] == book.notifiers[send.round_id]
            &&& !had ==> next.notifiers[send.round_id] == fresh
            &&& other != signature ==> {
                &&& next.sent.dom().contains(other) <==> book.sent.dom().contains(other)
                &&& next.sent[other] == book.sent[other]
                &&& next.waiters.dom().contains(other) <==> book.waiters.dom().contains(other)
                &&& next.waiters[other] == book.waiters[other]
            }
            &&& other != send.provider ==> {
                &&& next.metrics.dom().contains(other) <==> book.metrics.dom().contains(other)
                &&& next.metrics[other] == book.metrics[other]
            }
            &&& other != send.round_id ==> {
                &&& next.notifiers.dom().contains(other) <==> book.notifiers.dom().contains(other)
                &&& next.notifiers[other] == book.notifiers[other]
            }
        }),
{
}

/// A memo that names the provider of an open send closes the send. That provider has one win more,
/// with the time from sending to seeing behind its other times; the round counts as landed; the
/// waiters of the send and of the round are gone. Nothing else changes.
pub proof fn landing_changes_this_only<W, N>(
    book: BookModel<W, N>,
    signature: Seq<char>,
    memo: Seq<char>,
    seen: u64,
    other: Seq<char>,
)
    requires
        book.sent.dom().contains(signature),
        !book.sent[signature].provider.contains('|'),
        memo == book.sent[signature].provider || exists|tail: Seq<char>|
            memo == #[trigger] (book.sent[signature].provider + seq!['|'] + tail),
    ensures
        ({
            let next = book.after_landing(signature, memo, seen);
            let send = book.sent[signature];
            let known = book.metrics.dom().contains(send.provider);
            let earlier = if known {
                book.metrics[send.provider].latencies
            } else {
                Seq::empty()
            };
            let wins = if known {
                book.metrics[send.provider].landed
            } else {
                0
            };
            let won = next.metrics[send.provider];
            &&& next.rounds == book.rounds
            &&& !next.sent.dom().contains(signature)
            &&& !next.waiters.dom().contains(signature)
            &&& !next.notifiers.dom().contains(send.round_id)
            &&& next.metrics.dom().contains(send.provider)
            &&& won.landed == wins + 1
            &&& won.latencies.len() == earlier.len() + 1
            &&& won.latencies.drop_last() == earlier
            &&& send.sent_elapsed <= seen ==> send.sent_elapsed + won.latencies.last() == seen
            &&& send.sent_elapsed > seen ==> won.latencies.last() == 0
            &&& next.landed_rounds.contains(other) <==> book.landed_rounds.contains(other)
                || other == send.round_id
            &&& other != signature ==> {
                &&& next.sent.dom().contains(other) <==> book.sent.dom().contains(other)
                &&& next.sent[other] == book.sent[other]
                &&& next.waiters.dom().contains(other) <==> book.waiters.dom().contains(other)
                &&& next.waiters[other] == book.waiters[other]
            }
            &&& other != send.provider ==> {
                &&& next.metrics.dom().contains(other) <==> book.metrics.dom().contains(other)
                &&& next.metrics[other] == book.metrics[other]
            }
            &&& other != send.round_id ==> {
                &&& next.notifiers.dom().contains(other) <==> book.notifiers.dom().contains(other)
                &&& next.notifiers[other] == book.notifiers[other]
            }
        }),
{
    let provider = book.sent[signature].provider;
    let n = provider.len() as int;
    if memo != provider {
        let tail = choose|tail: Seq<char>| memo == #[trigger] (provider + seq!['|'] + tail);
        assert(memo.take(n) =~= provider);
        assert(memo[n] == '|');
    }
    memo_names_one_provider(memo, provider);
    let won = book.after_landing(signature, memo, seen).metrics[provider];
    assert(won.latencies.drop_last() =~= book.won(provider).latencies);
}

/// A memo that comes under the signature of no open send changes nothing. One that names another
/// provider than the send's closes the send and changes nothing else.
pub proof fn other_memos_count_for_nothing<W, N>(
    book: BookModel<W, N>,
    signature: Seq<char>,
    memo: Seq<char>,
    seen: u64,
)
    requires
        book.sent.dom().contains(signature) ==> {
            let provider = book.sent[signature].provider;
            let n = provider.len() as int;
            ||| provider.contains('|')
            ||| memo != provider && !(memo.len() > n && memo.take(n) == provider && memo[n] == '|')
        },
    ensures
        ({
            let next = book.after_landing(signature, memo, seen);
            &&& next.rounds == book.rounds
            &&& next.metrics == book.metrics
            &&& next.landed_rounds == book.landed_rounds
            &&& next.waiters == book.waiters
            &&& next.notifiers == book.notifiers
            &&& next.sent == book.sent.remove(signature)
            &&& !book.sent.dom().contains(signature) ==> next.sent == book.sent
        }),
{
    memo_names_one_provider(memo, book.sent[signature].provider);
    if !book.sent.dom().contains(signature) {
        assert(book.sent.remove(signature) =~= book.sent);
    }
}

proof fn lemma_all_latencies(providers: Seq<ProviderSummary>)
    ensures
        all_latencies(providers) == providers.map_values(
            |p: ProviderSummary| p.latencies@,
        ).flatten_alt(),
    decreases providers.len(),
{
    let times = providers.map_values(|p: ProviderSummary| p.latencies@);
    if providers.len() > 0 {
        lemma_all_latencies(providers.drop_last());
        assert(times.drop_last() =~= providers.drop_last().map_values(
            |p: ProviderSummary| p.latencies@,
        ));
    }
}

/// A summary says of every provider that was sent to, and of no other, how often it won and in what
/// times, those in ascending order; the providers stand in the order of their names' bytes. It gives
/// the number of rounds that were started and of those that landed, and the figures of all times of
/// all providers.
pub proof fn summary_tells_the_record<W, N>(summary: LandingSummary, book: BookModel<W, N>)
    requires
        sums_up(summary, book),
    ensures
        summary.rounds == book.rounds,
        summary.total_landed == book.landed_rounds.len(),
        summary.overall == crate::stats::overall_of(
            summary.providers@.map_values(|p: ProviderSummary| p.latencies@).flatten(),
        ),
        forall|name: Seq<char>| #[trigger]
            book.metrics.dom().contains(name) <==> exists|i: int|
                0 <= i < summary.providers@.len() && (#[trigger] summary.providers@[i]).name@
                    == name,
        forall|i: int, j: int|
            0 <= i < j < summary.providers@.len() ==> crate::text::name_before(
                (#[trigger] summary.providers@[i]).name@,
                (#[trigger] summary.providers@[j]).name@,
            ),
        forall|i: int|
            0 <= i < summary.providers@.len() ==> {
                let provider = #[trigger] summary.providers@[i];
                let won = book.metrics[provider.name@];
                &&& provider.landed == won.landed
                &&& provider.latencies@.to_multiset() == won.latencies.to_multiset()
                &&& forall|a: int, b: int|
                    0 <= a <= b < provider.latencies@.len() ==> provider.latencies@[a]
                        <= provider.latencies@[b]
            },
{
    let times = summary.providers@.map_values(|p: ProviderSummary| p.latencies@);
    lemma_all_latencies(summary.providers@);
    times.lemma_flatten_and_flatten_alt_are_equivalent();
    assert forall|name: Seq<char>| #[trigger] book.metrics.dom().contains(name) <==> exists|i: int|
        0 <= i < summary.providers@.len() && (#[trigger] summary.providers@[i]).name@ == name by {
        if book.metrics.dom().contains(name) {
            assert(names(summary.providers@, name));
        }
        if exists|i: int|
            0 <= i < summary.providers@.len() && (#[trigger] summary.providers@[i]).name@ == name {
            let i = choose|i: int|
                0 <= i < summary.providers@.len() && (#[trigger] summary.providers@[i]).name@
                    == name;
            assert(tells(summary.providers@[i], book.metrics));
        }
    }
    assert forall|i: int| 0 <= i < summary.providers@.len() implies ({
        let provider = #[trigger] summary.providers@[i];
        let won = book.metrics[provider.name@];
        &&& provider.landed == won.landed
        &&& provider.latencies@.to_multiset() == won.latencies.to_multiset()
        &&& forall|a: int, b: int|
            0 <= a <= b < provider.latencies@.len() ==> provider.latencies@[a]
                <= provider.latencies@[b]
    }) by {
        assert(tells(summary.providers@[i], book.metrics));
        crate::stats::times_are_put_in_order(book.metrics[summary.providers@[i].name@].latencies);
    }
}

} // verus!
