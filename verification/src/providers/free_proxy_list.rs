//! The source that shows its proxies in an HTML table.
//!
//! Of each row the first column is the address, the second the port, the
//! third the country code and the seventh says `yes` where the proxy speaks
//! HTTPS.

use crate::provider::{listing_view, ListError, ListStep, Listing, Provider, Request};
use crate::providers::base::{clone_list, BaseProvider};
use crate::providers::markup::{inner_html_of, selected_inner_html};
use crate::proxy::{join_address, joined, MetadataView, ProxyMetadata, ProxyType};
use crate::text::{chars_of, eq_ignore_case, lower, string_of, trim, trimmed};
use crate::time::Span;
use vstd::prelude::*;

verus! {

pub const LIST_URL: &'static str = "https://free-proxy-list.net/";

pub const ACCEPT_LANGUAGE: &'static str = "en-US,en;q=0.8";

pub const USER_AGENT: &'static str =
    "Mozilla/5.0 (Macintosh; Intel Mac OS X 10_15_7) AppleWebKit/537.36 (KHTML, like Gecko) Chrome/91.0.4472.114 Safari/537.36";

pub const IP_SELECTOR: &'static str = "#list table tbody tr td:nth-child(1)";

pub const PORT_SELECTOR: &'static str = "#list table tbody tr td:nth-child(2)";

pub const CODE_SELECTOR: &'static str = "#list table tbody tr td:nth-child(3)";

pub const HTTPS_SELECTOR: &'static str = "#list table tbody tr td:nth-child(7)";

/// The same four columns of any table, for pages that lack the `#list` block.
pub const IP_SELECTOR_ALT: &'static str = "table tbody tr td:nth-child(1)";

pub const PORT_SELECTOR_ALT: &'static str = "table tbody tr td:nth-child(2)";

pub const CODE_SELECTOR_ALT: &'static str = "table tbody tr td:nth-child(3)";

pub const HTTPS_SELECTOR_ALT: &'static str = "table tbody tr td:nth-child(7)";

/// The cells that `first` finds, or where it finds none, those that
/// `second` finds.
pub open spec fn either(first: Option<Seq<Seq<char>>>, second: Option<Seq<Seq<char>>>) -> Option<
    Seq<Seq<char>>,
> {
    match first {
        Some(cells) => if cells.len() > 0 { Some(cells) } else { second },
        None => None,
    }
}

/// A column of the page: what `selector` finds, or where that is nothing,
/// what `fallback` finds.
pub open spec fn column(page: Seq<char>, selector: Seq<char>, fallback: Seq<char>) -> Option<
    Seq<Seq<char>>,
> {
    either(selected_inner_html(page, selector), selected_inner_html(page, fallback))
}

fn read_column(page: &str, selector: &str, fallback: &str) -> (cells: Result<Vec<String>, ListError>)
    ensures
        match cells {
            Ok(list) => column(page@, selector@, fallback@) == Some(list.deep_view()),
            Err(e) => e == ListError::Markup && column(page@, selector@, fallback@) is None,
        },
{
    let cells = inner_html_of(page, selector)?;
    if cells.len() > 0 {
        Ok(cells)
    } else {
        inner_html_of(page, fallback)
    }
}

/// The word that marks a proxy as speaking HTTPS.
pub open spec fn yes() -> Seq<char> {
    seq!['y', 'e', 's']
}

/// The protocol that a cell of the HTTPS column stands for.
pub open spec fn kind_of(flag: Seq<char>) -> ProxyType {
    if eq_ignore_case(trimmed(flag), yes()) {
        ProxyType::Https
    } else {
        ProxyType::Http
    }
}

fn read_kind(flag: &str) -> (kind: ProxyType)
    ensures
        kind == kind_of(flag@),
{
    let text = chars_of(flag);
    let word = trim(text.as_slice());
    if word.len() == 3 && (word[0] == 'y' || word[0] == 'Y') && (word[1] == 'e' || word[1] == 'E')
        && (word[2] == 's' || word[2] == 'S') {
        assert(lower(word@[0]) == lower(yes()[0]));
        assert(lower(word@[1]) == lower(yes()[1]));
        assert(lower(word@[2]) == lower(yes()[2]));
        ProxyType::Https
    } else {
        proof {
            if word@.len() == 3 {
                assert(lower(word@[0]) != lower(yes()[0]) || lower(word@[1]) != lower(yes()[1])
                    || lower(word@[2]) != lower(yes()[2]));
            }
        }
        ProxyType::Http
    }
}

/// The candidate that the `i`-th row stands for.
pub open spec fn row_entry(
    ips: Seq<Seq<char>>,
    ports: Seq<Seq<char>>,
    codes: Seq<Seq<char>>,
    flags: Seq<Seq<char>>,
    i: int,
) -> MetadataView {
    MetadataView {
        addr: joined(ips[i], ports[i]),
        kind: kind_of(flags[i]),
        country: trimmed(codes[i]),
    }
}

/// What four columns list: nothing without an address, nothing where the
/// columns differ in length, else one candidate to a row.
pub open spec fn assembled(
    ips: Seq<Seq<char>>,
    ports: Seq<Seq<char>>,
    codes: Seq<Seq<char>>,
    flags: Seq<Seq<char>>,
) -> Result<Seq<MetadataView>, ListError> {
    if ips.len() == 0 {
        Err(ListError::IpNotFound)
    } else if ports.len() != ips.len() || codes.len() != ips.len() || flags.len() != ips.len() {
        Err(ListError::LengthMismatch)
    } else {
        Ok(Seq::new(ips.len(), |i: int| row_entry(ips, ports, codes, flags, i)))
    }
}

/// Puts four columns together row by row.
pub fn assemble(ips: &Vec<String>, ports: &Vec<String>, codes: &Vec<String>, flags: &Vec<String>) -> (listing:
    Listing)
    ensures
        listing_view(listing) == assembled(
            ips.deep_view(),
            ports.deep_view(),
            codes.deep_view(),
            flags.deep_view(),
        ),
{
    if ips.len() == 0 {
        return Err(ListError::IpNotFound);
    }
    if ports.len() != ips.len() || codes.len() != ips.len() || flags.len() != ips.len() {
        return Err(ListError::LengthMismatch);
    }
    let mut batch: Vec<ProxyMetadata> = Vec::new();
    let mut i: usize = 0;
    while i < ips.len()
        invariant
            i <= ips.len(),
            ports.len() == ips.len(),
            codes.len() == ips.len(),
            flags.len() == ips.len(),
            batch@.len() == i,
            forall|k: int|
                0 <= k < i ==> (#[trigger] batch@[k])@ == row_entry(
                    ips.deep_view(),
                    ports.deep_view(),
                    codes.deep_view(),
                    flags.deep_view(),
                    k,
                ),
        decreases ips.len() - i,
    {
        let code = chars_of(codes[i].as_str());
        batch.push(
            ProxyMetadata {
                addr: join_address(ips[i].as_str(), ports[i].as_str()),
                kind: read_kind(flags[i].as_str()),
                country: string_of(trim(code.as_slice())),
            },
        );
        i += 1;
    }
    assert(batch.deep_view() =~= Seq::new(
        ips.deep_view().len(),
        |i: int| row_entry(ips.deep_view(), ports.deep_view(), codes.deep_view(), flags.deep_view(), i),
    ));
    Ok(batch)
}

/// What four columns list, where each may be missing because its selector
/// was not accepted.
pub open spec fn listed(
    ips: Option<Seq<Seq<char>>>,
    ports: Option<Seq<Seq<char>>>,
    codes: Option<Seq<Seq<char>>>,
    flags: Option<Seq<Seq<char>>>,
) -> Result<Seq<MetadataView>, ListError> {
    match (ips, ports, codes, flags) {
        (Some(ips), Some(ports), Some(codes), Some(flags)) => assembled(ips, ports, codes, flags),
        _ => Err(ListError::Markup),
    }
}

/// What the page lists.
pub open spec fn page_listing(page: Seq<char>) -> Result<Seq<MetadataView>, ListError> {
    listed(
        column(page, IP_SELECTOR@, IP_SELECTOR_ALT@),
        column(page, PORT_SELECTOR@, PORT_SELECTOR_ALT@),
        column(page, CODE_SELECTOR@, CODE_SELECTOR_ALT@),
        column(page, HTTPS_SELECTOR@, HTTPS_SELECTOR_ALT@),
    )
}

/// Decodes the page: four columns of its table, put together row by row.
pub fn parse(page: &str) -> (listing: Listing)
    ensures
        listing_view(listing) == page_listing(page@),
{
    let ips = read_column(page, IP_SELECTOR, IP_SELECTOR_ALT);
    let ports = read_column(page, PORT_SELECTOR, PORT_SELECTOR_ALT);
    let codes = read_column(page, CODE_SELECTOR, CODE_SELECTOR_ALT);
    let flags = read_column(page, HTTPS_SELECTOR, HTTPS_SELECTOR_ALT);
    match (ips, ports, codes, flags) {
        (Ok(ips), Ok(ports), Ok(codes), Ok(flags)) => assemble(&ips, &ports, &codes, &flags),
        _ => Err(ListError::Markup),
    }
}

/// The source at free-proxy-list.net.
#[derive(Debug)]
pub struct FreeProxyList {
    base: BaseProvider,
}

impl FreeProxyList {
    /// The upstream in force and the batch in store.
    pub closed spec fn state(self) -> BaseProvider {
        self.base
    }

    pub fn new() -> (source: Self)
        ensures
            source.state().proxy_upstream@.len() == 0,
            source.state().proxy_list@.len() == 0,
            source.state().last_update is None,
            source.state().ttl.nanos == 1200 * crate::time::NANOS_PER_SEC,
    {
        FreeProxyList { base: BaseProvider::new() }
    }
}

impl Provider for FreeProxyList {
    closed spec fn upstream(&self) -> Seq<char> {
        self.base.proxy_upstream@
    }

    fn name(&self) -> (name: &'static str)
        ensures
            name@ == "free-proxy-list.net"@,
    {
        "free-proxy-list.net"
    }

    fn set_proxy(&mut self, proxy: String)
        ensures
            final(self).state().proxy_upstream@ == proxy@,
            final(self).state().proxy_list == old(self).state().proxy_list,
            final(self).state().last_update == old(self).state().last_update,
            final(self).state().ttl == old(self).state().ttl,
    {
        self.base.proxy_upstream = proxy;
    }

    fn start_listing(&self, now: Span) -> (step: ListStep)
        ensures
            match step {
                ListStep::Cached(batch) => self.state().fresh(now) && batch.deep_view()
                    == self.state().proxy_list.deep_view(),
                ListStep::Fetch(request) => !self.state().fresh(now) && request.url@ == LIST_URL@
                    && request.headers.deep_view() == seq![
                    ("Accept-Language"@, ACCEPT_LANGUAGE@),
                    ("User-Agent"@, USER_AGENT@),
                ] && request.upstream@ == self.state().proxy_upstream@,
            },
    {
        if !self.base.should_update(now) {
            return ListStep::Cached(self.base.cached_list());
        }
        let mut headers: Vec<(String, String)> = Vec::new();
        headers.push(("Accept-Language".to_owned(), ACCEPT_LANGUAGE.to_owned()));
        headers.push(("User-Agent".to_owned(), USER_AGENT.to_owned()));
        assert(headers.deep_view() =~= seq![
            ("Accept-Language"@, ACCEPT_LANGUAGE@),
            ("User-Agent"@, USER_AGENT@),
        ]);
        ListStep::Fetch(
            Request { url: LIST_URL.to_owned(), headers, upstream: self.base.proxy_upstream.clone() },
        )
    }

    fn finish_listing(&mut self, page: &str, now: Span) -> (listing: Listing)
        ensures
            listing_view(listing) == page_listing(page@),
            final(self).state().proxy_upstream == old(self).state().proxy_upstream,
            final(self).state().ttl == old(self).state().ttl,
            match listing {
                Ok(batch) => final(self).state().proxy_list.deep_view() == batch.deep_view()
                    && final(self).state().last_update == Some(now),
                Err(_) => final(self).state().proxy_list == old(self).state().proxy_list
                    && final(self).state().last_update == old(self).state().last_update,
            },
    {
        let batch = parse(page)?;
        self.base.update_cache(clone_list(&batch), now);
        Ok(batch)
    }
}

} // verus!
