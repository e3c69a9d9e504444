//! The state that the built-in sources share: the upstream in force and the
//! last batch, kept for twenty minutes.

use crate::proxy::ProxyMetadata;
use crate::time::{Span, NANOS_PER_SEC};
use vstd::prelude::*;

verus! {

/// A copy of `list`, element by element.
pub fn clone_list(list: &Vec<ProxyMetadata>) -> (copy: Vec<ProxyMetadata>)
    ensures
        copy.deep_view() == list.deep_view(),
{
    let mut copy: Vec<ProxyMetadata> = Vec::new();
    let mut i: usize = 0;
    while i < list.len()
        invariant
            i <= list.len(),
            copy@.len() == i,
            forall|k: int| 0 <= k < i ==> (#[trigger] copy@[k])@ == list@[k]@,
        decreases list.len() - i,
    {
        copy.push(list[i].clone());
        i += 1;
    }
    assert(copy.deep_view() =~= list.deep_view());
    copy
}

#[derive(Debug)]
pub struct BaseProvider {
    /// The proxy that requests go through; empty for none.
    pub proxy_upstream: String,
    /// The batch of the last successful listing.
    pub proxy_list: Vec<ProxyMetadata>,
    /// When that batch was stored.
    pub last_update: Option<Span>,
    /// How long a stored batch stays fresh.
    pub ttl: Span,
}

impl BaseProvider {
    /// Whether the stored batch can still be handed out at time `now`: it
    /// was stored less than `ttl` ago and is not empty.
    pub open spec fn fresh(self, now: Span) -> bool {
        match self.last_update {
            Some(last) => now.since(last) < self.ttl.nanos && self.proxy_list@.len() > 0,
            None => false,
        }
    }

    /// A base with no upstream and no batch, which keeps a batch for twenty minutes.
    pub fn new() -> (base: Self)
        ensures
            base.proxy_upstream@.len() == 0,
            base.proxy_list@.len() == 0,
            base.last_update is None,
            base.ttl.nanos == 1200 * NANOS_PER_SEC,
    {
        BaseProvider {
            proxy_upstream: String::new(),
            proxy_list: Vec::new(),
            last_update: None,
            ttl: Span::from_secs(60 * 20),
        }
    }

    /// Whether a listing at time `now` has to fetch the page again.
    pub fn should_update(&self, now: Span) -> (stale: bool)
        ensures
            stale == !self.fresh(now),
    {
        match self.last_update {
            Some(last) => {
                if now.elapsed_since(&last).nanos < self.ttl.nanos && !self.proxy_list.is_empty() {
                    return false;
                }
            },
            None => {},
        }
        true
    }

    /// Stores `list` as the batch of time `now`.
    pub fn update_cache(&mut self, list: Vec<ProxyMetadata>, now: Span)
        ensures
            final(self).proxy_list == list,
            final(self).last_update == Some(now),
            final(self).proxy_upstream == old(self).proxy_upstream,
            final(self).ttl == old(self).ttl,
    {
        self.proxy_list = list;
        self.last_update = Some(now);
    }

    /// A copy of the stored batch.
    pub fn cached_list(&self) -> (list: Vec<ProxyMetadata>)
        ensures
            list.deep_view() == self.proxy_list.deep_view(),
    {
        clone_list(&self.proxy_list)
    }
}

impl Default for BaseProvider {
    fn default() -> (base: Self)
        ensures
            base.proxy_upstream@.len() == 0,
            base.proxy_list@.len() == 0,
            base.last_update is None,
            base.ttl.nanos == 1200 * NANOS_PER_SEC,
    {
        BaseProvider::new()
    }
}

} // verus!
