//! The source that answers with plain text, one address to a line.

use crate::provider::{listing_view, ListStep, Listing, Provider, Request};
use crate::providers::base::{clone_list, BaseProvider};
use crate::proxy::{MetadataView, ProxyMetadata};
use crate::text::{chars_of, find, position, split, split_at_char, string_of, trim, trimmed};
use crate::time::Span;
use vstd::prelude::*;

verus! {

/// The query that asks for every HTTP proxy.
pub const LIST_URL: &'static str =
    "https://api.proxyscrape.com/v2/?request=getproxies&protocol=http&timeout=10000&country=all&ssl=all&anonymity=all";

/// Whether a line, white space at its ends removed, names an address: it is
/// not empty and holds a colon.
pub open spec fn names_address(line: Seq<char>) -> bool {
    line.len() > 0 && position(line, ':') < line.len()
}

/// The candidates that the given lines name, in their order.
pub open spec fn candidates(lines: Seq<Seq<char>>) -> Seq<MetadataView>
    decreases lines.len(),
{
    if lines.len() == 0 {
        Seq::empty()
    } else {
        let line = trimmed(lines.last());
        if names_address(line) {
            candidates(lines.drop_last()).push(ProxyMetadata::plain(line))
        } else {
            candidates(lines.drop_last())
        }
    }
}

/// What the page lists: one HTTP candidate of unknown country for every
/// line that names an address.
pub open spec fn page_listing(page: Seq<char>) -> Seq<MetadataView> {
    candidates(split(page, '\n'))
}

/// Decodes the page line by line.
pub fn parse(page: &str) -> (batch: Vec<ProxyMetadata>)
    ensures
        batch.deep_view() == page_listing(page@),
{
    let text = chars_of(page);
    let lines = split_at_char(text.as_slice(), '\n');
    let ghost all = split(page@, '\n');
    let mut batch: Vec<ProxyMetadata> = Vec::new();
    let mut k: usize = 0;
    while k < lines.len()
        invariant
            k <= lines.len(),
            all == split(page@, '\n'),
            lines@.len() == all.len(),
            forall|i: int| 0 <= i < lines@.len() ==> (#[trigger] lines@[i])@ == all[i],
            batch.deep_view() == candidates(all.take(k as int)),
        decreases lines.len() - k,
    {
        let line = trim(lines[k]);
        proof {
            assert(all.take(k + 1).drop_last() =~= all.take(k as int));
        }
        if line.len() > 0 && find(line, ':') < line.len() {
            let ghost before = batch.deep_view();
            batch.push(ProxyMetadata::http(string_of(line)));
            assert(batch.deep_view() =~= before.push(ProxyMetadata::plain(line@)));
        }
        k += 1;
    }
    assert(all.take(all.len() as int) =~= all);
    batch
}

/// The source at api.proxyscrape.com.
#[derive(Debug)]
pub struct ProxyScrape {
    base: BaseProvider,
}

impl ProxyScrape {
    /// The upstream in force and the batch in store.
    pub closed spec fn state(self) -> BaseProvider {
        self.base
    }

    pub fn new() -> (source: Self)
        ensures
            source.state().proxy_upstream@.len() == 0,
            source.state().proxy_list@.len() == 0,
            source.state().last_update is None,
            source.state().ttl.nanos == 1200 * crate::time::NANOS_PER_SEC,
    {
        ProxyScrape { base: BaseProvider::new() }
    }
}

impl Provider for ProxyScrape {
    closed spec fn upstream(&self) -> Seq<char> {
        self.base.proxy_upstream@
    }

    fn name(&self) -> (name: &'static str)
        ensures
            name@ == "api.proxyscrape.com"@,
    {
        "api.proxyscrape.com"
    }

    fn set_proxy(&mut self, proxy: String)
        ensures
            final(self).state().proxy_upstream@ == proxy@,
            final(self).state().proxy_list == old(self).state().proxy_list,
            final(self).state().last_update == old(self).state().last_update,
            final(self).state().ttl == old(self).state().ttl,
    {
        self.base.proxy_upstream = proxy;
    }

    fn start_listing(&self, now: Span) -> (step: ListStep)
        ensures
            match step {
                ListStep::Cached(batch) => self.state().fresh(now) && batch.deep_view()
                    == self.state().proxy_list.deep_view(),
                ListStep::Fetch(request) => !self.state().fresh(now) && request.url@ == LIST_URL@
                    && request.headers@.len() == 0 && request.upstream@
                    == self.state().proxy_upstream@,
            },
    {
        if !self.base.should_update(now) {
            return ListStep::Cached(self.base.cached_list());
        }
        ListStep::Fetch(
            Request {
                url: LIST_URL.to_owned(),
                headers: Vec::new(),
                upstream: self.base.proxy_upstream.clone(),
            },
        )
    }

    fn finish_listing(&mut self, page: &str, now: Span) -> (listing: Listing)
        ensures
            listing_view(listing) == Ok::<Seq<MetadataView>, crate::provider::ListError>(
                page_listing(page@),
            ),
            final(self).state().proxy_upstream == old(self).state().proxy_upstream,
            final(self).state().ttl == old(self).state().ttl,
            final(self).state().proxy_list.deep_view() == page_listing(page@),
            final(self).state().last_update == Some(now),
    {
        let batch = parse(page);
        self.base.update_cache(clone_list(&batch), now);
        Ok(batch)
    }
}

} // verus!
