//! Remembering what verifications found.
//!
//! The cache maps an address to the outcome of its last verification and
//! forgets it once a fixed time has gone by. It reads no clock: every call
//! says what time it is.

use crate::time::{Span, NANOS_PER_SEC};
use vstd::prelude::*;

verus! {

/// What is stored for an address: the outcome, and when it was stored.
pub struct Stored {
    /// The latency that the verification measured; `None` where it failed.
    pub value: Option<Span>,
    /// The time of the `put`.
    pub since: Span,
}

/// The cache as a map.
pub struct CacheView {
    pub entries: Map<Seq<char>, Stored>,
    /// How long an entry is kept.
    pub ttl: Span,
}

impl CacheView {
    /// Whether something stored at `since` is still kept at time `now`.
    pub open spec fn keeps(self, since: Span, now: Span) -> bool {
        now.since(since) < self.ttl.nanos
    }

    /// What the cache answers for `addr` at time `now`: the stored outcome
    /// while it is kept, a miss otherwise.
    pub open spec fn get(self, addr: Seq<char>, now: Span) -> Option<Option<Span>> {
        if self.entries.dom().contains(addr) && self.keeps(self.entries[addr].since, now) {
            Some(self.entries[addr].value)
        } else {
            None
        }
    }

    /// The cache without what it no longer keeps at time `now`.
    pub open spec fn purged(self, now: Span) -> CacheView {
        CacheView {
            entries: Map::new(
                |a: Seq<char>| self.entries.dom().contains(a) && self.keeps(self.entries[a].since, now),
                |a: Seq<char>| self.entries[a],
            ),
            ttl: self.ttl,
        }
    }

    /// The cache after `value` was stored for `addr` at time `now`.
    pub open spec fn put(self, addr: Seq<char>, value: Option<Span>, now: Span) -> CacheView {
        CacheView {
            entries: self.purged(now).entries.insert(addr, Stored { value, since: now }),
            ttl: self.ttl,
        }
    }
}

#[derive(Debug)]
struct Entry {
    addr: String,
    value: Option<Span>,
    since: Span,
}

/// A map from addresses to outcomes that forgets with time.
#[derive(Debug)]
pub struct VerificationCache {
    entries: Vec<Entry>,
    ttl: Span,
}

spec fn holds(entries: Seq<Entry>, addr: Seq<char>) -> bool {
    exists|i: int| 0 <= i < entries.len() && (#[trigger] entries[i]).addr@ == addr
}

spec fn slot(entries: Seq<Entry>, addr: Seq<char>) -> int {
    choose|i: int| 0 <= i < entries.len() && (#[trigger] entries[i]).addr@ == addr
}

spec fn distinct(entries: Seq<Entry>) -> bool {
    forall|i: int, j: int|
        0 <= i < j < entries.len() ==> (#[trigger] entries[i]).addr@ != (#[trigger] entries[j]).addr@
}

spec fn model(entries: Seq<Entry>) -> Map<Seq<char>, Stored> {
    Map::new(
        |a: Seq<char>| holds(entries, a),
        |a: Seq<char>|
            Stored { value: entries[slot(entries, a)].value, since: entries[slot(entries, a)].since },
    )
}

proof fn lemma_model_at(entries: Seq<Entry>, i: int)
    requires
        distinct(entries),
        0 <= i < entries.len(),
    ensures
        model(entries).dom().contains(entries[i].addr@),
        model(entries)[entries[i].addr@] == (Stored {
            value: entries[i].value,
            since: entries[i].since,
        }),
{
    let a = entries[i].addr@;
    assert(holds(entries, a));
    let j = slot(entries, a);
    assert(j == i);
}

impl View for VerificationCache {
    type V = CacheView;

    closed spec fn view(&self) -> CacheView {
        CacheView { entries: model(self.entries@), ttl: self.ttl }
    }
}

impl VerificationCache {
    #[verifier::type_invariant]
    spec fn well_formed(self) -> bool {
        distinct(self.entries@)
    }

    /// An empty cache that keeps an entry for twenty minutes.
    pub fn new() -> (cache: Self)
        ensures
            cache@.entries == Map::<Seq<char>, Stored>::empty(),
            cache@.ttl.nanos == 1200 * NANOS_PER_SEC,
    {
        let cache = VerificationCache { entries: Vec::new(), ttl: Span::from_secs(20 * 60) };
        assert(cache@.entries =~= Map::<Seq<char>, Stored>::empty());
        cache
    }

    /// An empty cache that keeps an entry for `ttl`.
    pub fn with_ttl(ttl: Span) -> (cache: Self)
        ensures
            cache@.entries == Map::<Seq<char>, Stored>::empty(),
            cache@.ttl == ttl,
    {
        let cache = VerificationCache { entries: Vec::new(), ttl };
        assert(cache@.entries =~= Map::<Seq<char>, Stored>::empty());
        cache
    }

    /// How long an entry is kept.
    pub fn ttl(&self) -> (ttl: Span)
        ensures
            ttl == self@.ttl,
    {
        self.ttl
    }

    /// Looks `addr` up at time `now`. `Some(outcome)` is a hit, `None` a miss.
    pub fn get(&self, addr: &str, now: Span) -> (found: Option<Option<Span>>)
        ensures
            found == self@.get(addr@, now),
    {
        proof {
            use_type_invariant(self);
        }
        let key = addr.to_owned();
        let mut i: usize = 0;
        while i < self.entries.len()
            invariant
                i <= self.entries.len(),
                key@ == addr@,
                distinct(self.entries@),
                forall|k: int| 0 <= k < i ==> (#[trigger] self.entries@[k]).addr@ != addr@,
            decreases self.entries.len() - i,
        {
            let entry = &self.entries[i];
            if entry.addr == key {
                proof {
                    lemma_model_at(self.entries@, i as int);
                }
                if now.elapsed_since(&entry.since).nanos < self.ttl.nanos {
                    return Some(entry.value);
                } else {
                    return None;
                }
            }
            i += 1;
        }
        assert(!holds(self.entries@, addr@));
        None
    }

    /// Stores `value` for `addr` at time `now`, in place of whatever was
    /// stored for `addr`, and drops what is no longer kept.
    pub fn put(&mut self, addr: String, value: Option<Span>, now: Span)
        ensures
            final(self)@ == old(self)@.put(addr@, value, now),
    {
        proof {
            use_type_invariant(&*self);
        }
        let ghost before = self.entries@;
        let ttl = self.ttl;
        let mut kept: Vec<Entry> = Vec::new();
        let mut i: usize = 0;
        while i < self.entries.len()
            invariant
                i <= self.entries.len(),
                self.entries@ == before,
                self.ttl == ttl,
                distinct(before),
                distinct(kept@),
                forall|k: int|
                    0 <= k < kept@.len() ==> exists|j: int|
                        0 <= j < i && (#[trigger] before[j]).addr@ == (#[trigger] kept@[k]).addr@
                            && before[j].value == kept@[k].value && before[j].since
                            == kept@[k].since && before[j].addr@ != addr@ && now.since(
                            before[j].since,
                        ) < ttl.nanos,
                forall|j: int|
                    0 <= j < i && (#[trigger] before[j]).addr@ != addr@ && now.since(
                        before[j].since,
                    ) < ttl.nanos ==> holds(kept@, before[j].addr@),
            decreases self.entries.len() - i,
        {
            let entry = &self.entries[i];
            if entry.addr != addr && now.elapsed_since(&entry.since).nanos < ttl.nanos {
                let ghost prior = kept@;
                let copy = Entry { addr: entry.addr.clone(), value: entry.value, since: entry.since };
                kept.push(copy);
                proof {
                    assert forall|a: int, b: int| 0 <= a < b < kept@.len() implies (
                    #[trigger] kept@[a]).addr@ != (#[trigger] kept@[b]).addr@ by {
                        if b == prior.len() {
                            let j = choose|j: int|
                                0 <= j < i && (#[trigger] before[j]).addr@ == (
                                #[trigger] prior[a]).addr@;
                            assert(before[j].addr@ != before[i as int].addr@);
                        } else {
                            assert(prior[a].addr@ != prior[b].addr@);
                        }
                    }
                    assert forall|k: int| 0 <= k < kept@.len() implies exists|j: int|
                        0 <= j < i + 1 && (#[trigger] before[j]).addr@ == (
                        #[trigger] kept@[k]).addr@ && before[j].value == kept@[k].value
                            && before[j].since == kept@[k].since && before[j].addr@ != addr@
                            && now.since(before[j].since) < ttl.nanos by {
                        if k < prior.len() {
                            assert(kept@[k] == prior[k]);
                            let j = choose|j: int|
                                0 <= j < i && (#[trigger] before[j]).addr@ == (
                                #[trigger] prior[k]).addr@ && before[j].value == prior[k].value
                                    && before[j].since == prior[k].since && before[j].addr@
                                    != addr@ && now.since(before[j].since) < ttl.nanos;
                            assert(0 <= j < i + 1);
                        } else {
                            assert(before[i as int].addr@ == kept@[k].addr@);
                        }
                    }
                    assert forall|j: int|
                        0 <= j < i + 1 && (#[trigger] before[j]).addr@ != addr@ && now.since(
                            before[j].since,
                        ) < ttl.nanos implies holds(kept@, before[j].addr@) by {
                        if j < i {
                            assert(holds(prior, before[j].addr@));
                            let k = slot(prior, before[j].addr@);
                            assert(kept@[k] == prior[k]);
                        } else {
                            assert(kept@[prior.len() as int].addr@ == before[j].addr@);
                        }
                    }
                }
            }
            i += 1;
        }
        let ghost retained = kept@;
        kept.push(Entry { addr, value, since: now });
        proof {
            let after = kept@;
            assert forall|a: int, b: int| 0 <= a < b < after.len() implies (#[trigger] after[a]).addr@
                != (#[trigger] after[b]).addr@ by {
                if b == retained.len() {
                    let j = choose|j: int|
                        0 <= j < before.len() && (#[trigger] before[j]).addr@ == (
                        #[trigger] retained[a]).addr@ && before[j].addr@ != addr@;
                } else {
                    assert(retained[a].addr@ != retained[b].addr@);
                }
            }
            let goal = old(self)@.put(addr@, value, now).entries;
            assert forall|a: Seq<char>| model(after).dom().contains(a) implies goal.dom().contains(
                a,
            ) && goal[a] == model(after)[a] by {
                let k = slot(after, a);
                lemma_model_at(after, k);
                if k < retained.len() {
                    assert(after[k] == retained[k]);
                    let j = choose|j: int|
                        0 <= j < before.len() && (#[trigger] before[j]).addr@ == (
                        #[trigger] retained[k]).addr@ && before[j].value == retained[k].value
                            && before[j].since == retained[k].since && before[j].addr@ != addr@
                            && now.since(before[j].since) < ttl.nanos;
                    lemma_model_at(before, j);
                }
            }
            assert forall|a: Seq<char>| goal.dom().contains(a) implies model(after).dom().contains(
                a,
            ) by {
                if a == addr@ {
                    assert(after[retained.len() as int].addr@ == a);
                } else {
                    assert(holds(before, a));
                    let j = slot(before, a);
                    lemma_model_at(before, j);
                    assert(holds(retained, before[j].addr@));
                    let k = slot(retained, a);
                    assert(after[k] == retained[k]);
                }
            }
            assert(model(after) =~= goal);
        }
        self.entries = kept;
    }

    /// How many addresses are stored, kept or not.
    pub fn len(&self) -> (n: usize)
        ensures
            n == self@.entries.dom().len(),
            self@.entries.dom().finite(),
    {
        proof {
            use_type_invariant(self);
            lemma_model_len(self.entries@);
        }
        self.entries.len()
    }
}

proof fn lemma_model_len(entries: Seq<Entry>)
    requires
        distinct(entries),
    ensures
        model(entries).dom().finite(),
        model(entries).dom().len() == entries.len(),
    decreases entries.len(),
{
    if entries.len() == 0 {
        assert(model(entries).dom() =~= Set::<Seq<char>>::empty());
    } else {
        let head = entries.drop_last();
        let last = entries.last();
        assert forall|i: int, j: int| 0 <= i < j < head.len() implies (#[trigger] head[i]).addr@ != (
        #[trigger] head[j]).addr@ by {
            assert(head[i] == entries[i] && head[j] == entries[j]);
        }
        lemma_model_len(head);
        assert(!holds(head, last.addr@)) by {
            if holds(head, last.addr@) {
                let i = slot(head, last.addr@);
                assert(head[i] == entries[i]);
                assert(entries[i].addr@ != entries[entries.len() - 1].addr@);
            }
        }
        assert(model(entries).dom() =~= model(head).dom().insert(last.addr@)) by {
            assert forall|a: Seq<char>| model(entries).dom().contains(a) implies model(
                head,
            ).dom().insert(last.addr@).contains(a) by {
                let i = slot(entries, a);
                if i < head.len() {
                    assert(head[i] == entries[i]);
                }
            }
            assert forall|a: Seq<char>|
                model(head).dom().insert(last.addr@).contains(a) implies model(
                entries,
            ).dom().contains(a) by {
                if a == last.addr@ {
                    assert(entries[entries.len() - 1].addr@ == a);
                } else {
                    let i = slot(head, a);
                    assert(head[i] == entries[i]);
                }
            }
        }
    }
}

/// What was put is what is got, for as long as it is kept: a `get` of
/// `addr` that follows a `put` of `value` by less than the cache's `ttl`
/// answers `value`.
pub proof fn law_put_then_get(
    cache: CacheView,
    addr: Seq<char>,
    value: Option<Span>,
    stored: Span,
    now: Span,
)
    requires
        now.since(stored) < cache.ttl.nanos,
    ensures
        cache.put(addr, value, stored).get(addr, now) == Some(value),
{
}

/// What was put is gone once its time is up: a `get` of `addr` that follows
/// a `put` by the cache's `ttl` or more is a miss.
pub proof fn law_expiry(
    cache: CacheView,
    addr: Seq<char>,
    value: Option<Span>,
    stored: Span,
    now: Span,
)
    requires
        now.since(stored) >= cache.ttl.nanos,
    ensures
        cache.put(addr, value, stored).get(addr, now) is None,
{
}

/// A `put` for one address changes no later answer for another.
pub proof fn law_put_leaves_others(
    cache: CacheView,
    addr: Seq<char>,
    value: Option<Span>,
    stored: Span,
    other: Seq<char>,
    now: Span,
)
    requires
        other != addr,
        now.nanos >= stored.nanos,
    ensures
        cache.put(addr, value, stored).get(other, now) == cache.get(other, now),
{
}

} // verus!
