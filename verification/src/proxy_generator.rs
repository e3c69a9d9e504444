//! The decisions of the engine.
//!
//! Two loops drive the pipeline: one asks each source in turn for its list
//! and queues candidates, the other takes candidates from the queue,
//! verifies them and hands the good ones out. Both loops, their queues and
//! their waiting belong to the caller. What they decide at each step is
//! decided here, over one value that holds the filter in force, the cache
//! of verifications and the last proxy that was handed out.

use crate::cache::{CacheView, VerificationCache};
use crate::filter::{FilterView, ProxyFilter};
use crate::provider::{Listing, Provider};
use crate::proxy::{MetadataView, Proxy, ProxyMetadata, ProxyView};
use crate::time::{Span, NANOS_PER_SEC};
use vstd::prelude::*;

verus! {

/// How many candidates may wait for a verification.
pub const JOB_QUEUE_CAPACITY: usize = 100;

/// How many verified proxies may wait for the consumer.
pub const OUTPUT_CAPACITY: usize = 100;

/// How many candidates of one listing are queued at most.
pub const BATCH_LIMIT: usize = 10;

/// How long the harvest rests after it has asked every source.
pub fn harvest_pause() -> (t: Span)
    ensures
        t.nanos == NANOS_PER_SEC,
{
    Span::from_secs(1)
}

/// A candidate on its way to a verification.
#[derive(Debug)]
pub struct Job {
    pub metadata: ProxyMetadata,
    /// The name of the source that listed the candidate.
    pub provider: String,
}

/// What to do with a candidate, given what the cache knows of it.
#[derive(Debug, Clone, Copy, PartialEq, Eq, Structural)]
pub enum WorkerStep {
    /// Nothing is known: verify it, and record the outcome.
    Verify,
    /// It failed not long ago: drop it.
    Skip,
    /// It passed not long ago with this latency: no need to verify again.
    Use(Span),
}

/// The step that follows from a lookup in the cache.
pub open spec fn step_for(found: Option<Option<Span>>) -> WorkerStep {
    match found {
        None => WorkerStep::Verify,
        Some(None) => WorkerStep::Skip,
        Some(Some(latency)) => WorkerStep::Use(latency),
    }
}

/// The candidates of `batch` that `filter` finds worth a verification, in
/// the order of the batch.
pub open spec fn survivors(filter: FilterView, batch: Seq<MetadataView>) -> Seq<MetadataView> {
    batch.filter(|meta: MetadataView| filter.accepts_metadata(meta))
}

/// The smaller of the number of survivors and the limit on a batch.
pub open spec fn queued_count(survivors: nat) -> nat {
    if survivors < BATCH_LIMIT {
        survivors
    } else {
        BATCH_LIMIT as nat
    }
}

/// The proxy that a candidate becomes once its latency is known.
pub open spec fn verified(meta: MetadataView, provider: Seq<char>, latency: Span) -> ProxyView {
    ProxyView { addr: meta.addr, kind: meta.kind, country: meta.country, provider, latency }
}

/// Calls `SliceRandom::shuffle` with the generator of `rand::thread_rng`.
/// Which order comes out is left open: the contract says only that the
/// batch holds the same candidates as before, each as often as before.
#[verifier::external_body]
fn shuffle(batch: &mut Vec<ProxyMetadata>)
    ensures
        final(batch).deep_view().to_multiset() == old(batch).deep_view().to_multiset(),
{
    rand::seq::SliceRandom::shuffle(batch.as_mut_slice(), &mut rand::thread_rng());
}

/// The candidates of `batch` that `filter` accepts, in the order of the batch.
pub fn select(filter: &ProxyFilter, batch: &Vec<ProxyMetadata>) -> (kept: Vec<ProxyMetadata>)
    ensures
        kept.deep_view() == survivors(filter@, batch.deep_view()),
{
    let ghost all = batch.deep_view();
    let ghost pred = |meta: MetadataView| filter@.accepts_metadata(meta);
    let mut kept: Vec<ProxyMetadata> = Vec::new();
    let mut i: usize = 0;
    proof {
        reveal(Seq::filter);
        assert(kept.deep_view() =~= all.take(0).filter(pred));
    }
    while i < batch.len()
        invariant
            i <= batch.len(),
            all == batch.deep_view(),
            pred == |meta: MetadataView| filter@.accepts_metadata(meta),
            kept.deep_view() == all.take(i as int).filter(pred),
        decreases batch.len() - i,
    {
        let ghost before = kept.deep_view();
        proof {
            reveal(Seq::filter);
            assert(all.take(i + 1).drop_last() =~= all.take(i as int));
            assert(all.take(i + 1).last() == batch@[i as int]@);
        }
        if filter.filter_metadata(&batch[i]) {
            kept.push(batch[i].clone());
            assert(kept.deep_view() =~= before.push(batch@[i as int]@));
        }
        i += 1;
    }
    assert(all.take(all.len() as int) =~= all);
    kept
}

/// The beginning of a sequence holds nothing that the sequence does not hold.
pub proof fn lemma_take_is_part<A>(s: Seq<A>, n: int)
    requires
        0 <= n <= s.len(),
    ensures
        s.take(n).to_multiset().subset_of(s.to_multiset()),
{
    broadcast use vstd::multiset::group_multiset_axioms;

    assert(s =~= s.take(n) + s.skip(n));
    vstd::seq_lib::lemma_multiset_commutative(s.take(n), s.skip(n));
}

/// Every survivor stands in the batch and is accepted by the filter.
pub proof fn lemma_survivors(filter: FilterView, batch: Seq<MetadataView>, meta: MetadataView)
    requires
        survivors(filter, batch).contains(meta),
    ensures
        filter.accepts_metadata(meta),
        batch.contains(meta),
    decreases batch.len(),
{
    reveal(Seq::filter);
    let pred = |meta: MetadataView| filter.accepts_metadata(meta);
    if batch.len() > 0 {
        let i = choose|i: int| 0 <= i < survivors(filter, batch).len() && survivors(filter, batch)[i] == meta;
        let head = batch.drop_last();
        if pred(batch.last()) && i == head.filter(pred).len() {
            assert(batch[batch.len() - 1] == meta);
        } else {
            assert(head.filter(pred)[i] == meta);
            lemma_survivors(filter, head, meta);
            let j = choose|j: int| 0 <= j < head.len() && head[j] == meta;
            assert(batch[j] == meta);
        }
    }
}

/// The engine's state: the filter in force, what verifications found, and
/// the proxy that was handed out last.
#[derive(Debug)]
pub struct ProxyGenerator {
    filter: ProxyFilter,
    cache: VerificationCache,
    last_valid_proxy: Option<Proxy>,
}

/// A `ProxyGenerator` as plain values.
pub struct GeneratorView {
    pub filter: FilterView,
    pub cache: CacheView,
    pub last_valid: Option<ProxyView>,
}

impl GeneratorView {
    /// The proxy through which the sources are asked next: the address of
    /// the last proxy that was handed out, empty where there is none.
    pub open spec fn upstream(self) -> Seq<char> {
        match self.last_valid {
            Some(proxy) => proxy.addr,
            None => Seq::empty(),
        }
    }
}

impl View for ProxyGenerator {
    type V = GeneratorView;

    closed spec fn view(&self) -> GeneratorView {
        GeneratorView {
            filter: self.filter@,
            cache: self.cache@,
            last_valid: match self.last_valid_proxy {
                Some(proxy) => Some(proxy@),
                None => None,
            },
        }
    }
}

/// The metadata of the given jobs, in their order.
pub open spec fn job_metadata(jobs: Seq<Job>) -> Seq<MetadataView> {
    jobs.map_values(|job: Job| job.metadata@)
}

impl ProxyGenerator {
    /// An engine with the filter that accepts everything, an empty cache
    /// that keeps an outcome for twenty minutes, and no proxy handed out.
    pub fn new() -> (engine: Self)
        ensures
            engine@.filter == FilterView::open(),
            engine@.cache.entries == Map::<Seq<char>, crate::cache::Stored>::empty(),
            engine@.cache.ttl.nanos == 1200 * NANOS_PER_SEC,
            engine@.last_valid is None,
    {
        ProxyGenerator {
            filter: ProxyFilter::new(),
            cache: VerificationCache::new(),
            last_valid_proxy: None,
        }
    }

    /// Puts `filter` in force, in place of the one before.
    pub fn set_filter(&mut self, filter: ProxyFilter)
        ensures
            final(self)@.filter == filter@,
            final(self)@.cache == old(self)@.cache,
            final(self)@.last_valid == old(self)@.last_valid,
    {
        self.filter = filter;
    }

    /// The proxy through which the sources are asked next.
    pub fn upstream(&self) -> (addr: String)
        ensures
            addr@ == self@.upstream(),
    {
        match &self.last_valid_proxy {
            Some(proxy) => proxy.addr.clone(),
            None => String::new(),
        }
    }

    /// Routes the next requests of `provider` through the last proxy that
    /// was handed out, or directly where there is none.
    pub fn prepare<P: Provider + ?Sized>(&self, provider: &mut P)
        ensures
            final(provider).upstream() == self@.upstream(),
    {
        provider.set_proxy(self.upstream());
    }

    /// Takes the listing of the source named `provider` and says which
    /// candidates to queue.
    ///
    /// A listing that failed queues nothing and forgets the last proxy that
    /// was handed out. A batch is reduced to what the filter in force
    /// accepts, put in a random order and cut to `BATCH_LIMIT` candidates.
    pub fn harvest(&mut self, provider: &str, listing: Listing) -> (jobs: Vec<Job>)
        ensures
            final(self)@.filter == old(self)@.filter,
            final(self)@.cache == old(self)@.cache,
            match listing {
                Err(_) => jobs@.len() == 0 && final(self)@.last_valid is None,
                Ok(batch) => {
                    let kept = survivors(old(self)@.filter, batch.deep_view());
                    &&& final(self)@.last_valid == old(self)@.last_valid
                    &&& jobs@.len() == queued_count(kept.len())
                    &&& job_metadata(jobs@).to_multiset().subset_of(kept.to_multiset())
                    &&& forall|k: int|
                        0 <= k < jobs@.len() ==> {
                            &&& (#[trigger] jobs@[k]).provider@ == provider@
                            &&& old(self)@.filter.accepts_metadata(jobs@[k].metadata@)
                            &&& batch.deep_view().contains(jobs@[k].metadata@)
                        }
                },
            },
    {
        let batch = match listing {
            Ok(batch) => batch,
            Err(_) => {
                self.last_valid_proxy = None;
                return Vec::new();
            },
        };
        let ghost kept = survivors(self@.filter, batch.deep_view());
        let mut chosen = select(&self.filter, &batch);
        shuffle(&mut chosen);
        let ghost mixed = chosen.deep_view();
        chosen.truncate(BATCH_LIMIT);
        proof {
            vstd::seq_lib::to_multiset_len(mixed);
            vstd::seq_lib::to_multiset_len(kept);
            assert(mixed.len() == kept.len());
            let n = chosen@.len() as int;
            assert(chosen.deep_view() =~= mixed.take(n));
            lemma_take_is_part(mixed, n);
        }
        let ghost picked = chosen.deep_view();
        let mut jobs: Vec<Job> = Vec::new();
        let mut i: usize = 0;
        while i < chosen.len()
            invariant
                i <= chosen.len(),
                picked == chosen.deep_view(),
                jobs@.len() == i,
                forall|k: int|
                    0 <= k < i ==> (#[trigger] jobs@[k]).provider@ == provider@ && jobs@[k].metadata@
                        == picked[k],
            decreases chosen.len() - i,
        {
            jobs.push(Job { metadata: chosen[i].clone(), provider: provider.to_owned() });
            i += 1;
        }
        proof {
            broadcast use vstd::seq_lib::to_multiset_contains;

            assert(job_metadata(jobs@) =~= picked);
            assert forall|k: int| 0 <= k < jobs@.len() implies {
                &&& (#[trigger] jobs@[k]).provider@ == provider@
                &&& old(self)@.filter.accepts_metadata(jobs@[k].metadata@)
                &&& batch.deep_view().contains(jobs@[k].metadata@)
            } by {
                let meta = jobs@[k].metadata@;
                assert(picked[k] == meta);
                assert(picked.contains(meta));
                assert(picked.to_multiset().count(meta) > 0);
                assert(kept.to_multiset().count(meta) > 0);
                assert(kept.contains(meta));
                lemma_survivors(old(self)@.filter, batch.deep_view(), meta);
            }
        }
        jobs
    }

    /// Says what to do with the candidate at `addr` at time `now`: verify
    /// it where the cache knows nothing of it, else go by what it knows.
    pub fn lookup(&self, addr: &str, now: Span) -> (step: WorkerStep)
        ensures
            step == step_for(self@.cache.get(addr@, now)),
    {
        match self.cache.get(addr, now) {
            None => WorkerStep::Verify,
            Some(None) => WorkerStep::Skip,
            Some(Some(latency)) => WorkerStep::Use(latency),
        }
    }

    /// Records at time `now` what the verification of `addr` found.
    pub fn record(&mut self, addr: String, outcome: Option<Span>, now: Span)
        ensures
            final(self)@.cache == old(self)@.cache.put(addr@, outcome, now),
            final(self)@.filter == old(self)@.filter,
            final(self)@.last_valid == old(self)@.last_valid,
    {
        self.cache.put(addr, outcome, now);
    }

    /// Turns a candidate whose latency is known into a proxy, and hands it
    /// on exactly where the filter in force accepts it.
    pub fn qualify(&self, job: Job, latency: Span) -> (proxy: Option<Proxy>)
        ensures
            proxy matches Some(p) ==> p@ == verified(job.metadata@, job.provider@, latency),
            proxy is Some <==> self@.filter.accepts_proxy(
                verified(job.metadata@, job.provider@, latency),
            ),
    {
        let proxy = Proxy {
            addr: job.metadata.addr,
            kind: job.metadata.kind,
            country: job.metadata.country,
            provider: job.provider,
            latency,
        };
        if self.filter.filter_proxy(&proxy) {
            Some(proxy)
        } else {
            None
        }
    }

    /// Hands on what the output queue yielded. A proxy that goes to the
    /// consumer becomes the one through which the sources are asked from
    /// now on; a queue that yielded nothing changes nothing.
    pub fn get(&mut self, received: Option<Proxy>) -> (proxy: Option<Proxy>)
        ensures
            match received {
                Some(p) => proxy matches Some(q) && q@ == p@ && final(self)@.last_valid == Some(p@)
                    && final(self)@.upstream() == p@.addr,
                None => proxy is None && final(self)@.last_valid == old(self)@.last_valid,
            },
            final(self)@.filter == old(self)@.filter,
            final(self)@.cache == old(self)@.cache,
    {
        match received {
            Some(proxy) => {
                self.last_valid_proxy = Some(proxy.clone());
                Some(proxy)
            },
            None => None,
        }
    }
}

/// What is handed out passed both filters: a candidate that was queued
/// under the filter `earlier` and qualified under the filter `current` was
/// accepted as a candidate by `earlier`, and is accepted as a proxy by
/// `current`.
pub proof fn law_delivered_was_accepted(
    earlier: FilterView,
    current: FilterView,
    batch: Seq<MetadataView>,
    meta: MetadataView,
    provider: Seq<char>,
    latency: Span,
)
    requires
        survivors(earlier, batch).contains(meta),
        current.accepts_proxy(verified(meta, provider, latency)),
    ensures
        earlier.accepts_metadata(verified(meta, provider, latency).metadata()),
        current.accepts_metadata(verified(meta, provider, latency).metadata()),
        current.accepts_latency(latency),
        batch.contains(meta),
{
    lemma_survivors(earlier, batch, meta);
}

/// No address is verified twice within the time the cache keeps an
/// outcome: once the outcome for `addr` is recorded at time `stored`, a
/// lookup at a time `now` less than `ttl` later never says `Verify`.
pub proof fn law_verified_once(
    cache: CacheView,
    addr: Seq<char>,
    outcome: Option<Span>,
    stored: Span,
    now: Span,
)
    requires
        now.since(stored) < cache.ttl.nanos,
    ensures
        step_for(cache.put(addr, outcome, stored).get(addr, now)) != WorkerStep::Verify,
        step_for(cache.put(addr, outcome, stored).get(addr, now)) == match outcome {
            Some(latency) => WorkerStep::Use(latency),
            None => WorkerStep::Skip,
        },
{
}

} // verus!
