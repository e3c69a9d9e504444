//! The source that scrambles each address on its own.
//!
//! The first cell of a row holds a script with a quoted text: the address
//! in base64, its letters shifted by thirteen places. The second cell holds
//! the port.

use crate::provider::{listing_view, ListError, ListStep, Listing, Provider, Request};
use crate::providers::base::{clone_list, BaseProvider};
use crate::providers::encoding::{base64_decoded, decode_base64, text_of_utf8};
use crate::providers::markup::{inner_html_of, selected_inner_html};
use crate::providers::pattern::{capture, first_group};
use crate::proxy::{join_address, joined, MetadataView, ProxyMetadata};
use crate::text::{chars_of, string_of};
use crate::time::Span;
use vstd::prelude::*;
use vstd::utf8::{decode_utf8, valid_utf8};

verus! {

pub const LIST_URL: &'static str =
    "https://www.cool-proxy.net/proxies/http_proxy_list/sort:score/direction:desc";

pub const IP_SELECTOR: &'static str = "#main table tr td:nth-child(1):not([colspan]) script";

pub const PORT_SELECTOR: &'static str = "#main table tr td:nth-child(2)";

/// Finds the first quoted text of a script.
pub const QUOTED_PATTERN: &'static str = r#""(.*?[^\\])""#;

/// `c` with a letter of the Latin alphabet shifted by thirteen places.
pub open spec fn rot13_of(c: char) -> char {
    if 'A' <= c <= 'Z' {
        (((c as u8 - 0x41 + 13) % 26) as u8 + 0x41) as u8 as char
    } else if 'a' <= c <= 'z' {
        (((c as u8 - 0x61 + 13) % 26) as u8 + 0x61) as u8 as char
    } else {
        c
    }
}

/// Shifts a letter of the Latin alphabet by thirteen places.
pub fn rot13(c: char) -> (r: char)
    ensures
        r == rot13_of(c),
{
    if 'A' <= c && c <= 'Z' {
        ((c as u8 - 0x41 + 13) % 26 + 0x41) as char
    } else if 'a' <= c && c <= 'z' {
        ((c as u8 - 0x61 + 13) % 26 + 0x61) as char
    } else {
        c
    }
}

/// `text` with every letter shifted by thirteen places.
pub open spec fn unscrambled(text: Seq<char>) -> Seq<char> {
    text.map_values(|c: char| rot13_of(c))
}

/// Shifts every letter of `text` by thirteen places.
pub fn unscramble(text: &str) -> (plain: String)
    ensures
        plain@ == unscrambled(text@),
{
    let mut chars = chars_of(text);
    let mut i: usize = 0;
    while i < chars.len()
        invariant
            i <= chars.len(),
            chars@.len() == text@.len(),
            forall|k: int| 0 <= k < i ==> chars@[k] == rot13_of(text@[k]),
            forall|k: int| i <= k < chars@.len() ==> chars@[k] == text@[k],
        decreases chars.len() - i,
    {
        let c = rot13(chars[i]);
        chars.set(i, c);
        i += 1;
    }
    assert(chars@ =~= unscrambled(text@));
    string_of(chars.as_slice())
}

/// The address behind a quoted text: its letters shifted back, the base64
/// decoded, the bytes read as UTF-8. `None` where a step fails.
pub open spec fn address_behind(quoted: Seq<char>) -> Option<Seq<char>> {
    match base64_decoded(unscrambled(quoted)) {
        Some(bytes) => if valid_utf8(bytes) { Some(decode_utf8(bytes)) } else { None },
        None => None,
    }
}

/// Unscrambles one quoted text.
pub fn reveal_address(quoted: &str) -> (addr: Option<String>)
    ensures
        addr.deep_view() == address_behind(quoted@),
{
    let plain = unscramble(quoted);
    match decode_base64(plain.as_str()) {
        Some(bytes) => text_of_utf8(bytes),
        None => None,
    }
}

/// The address behind what the pattern captured in a script, if it
/// captured a text and the text hides an address.
pub open spec fn host_in(quoted: Option<Seq<char>>) -> Option<Seq<char>> {
    match quoted {
        Some(text) => address_behind(text),
        None => None,
    }
}

/// The candidates that the rows give: one for every row that has a host
/// and a port, in the order of the rows.
pub open spec fn joined_rows(hosts: Seq<Option<Seq<char>>>, ports: Seq<Seq<char>>) -> Seq<
    MetadataView,
>
    decreases hosts.len(),
{
    if hosts.len() == 0 {
        Seq::empty()
    } else {
        let head = joined_rows(hosts.drop_last(), ports);
        let row = hosts.len() - 1;
        match hosts.last() {
            Some(host) => if row < ports.len() {
                head.push(ProxyMetadata::plain(joined(host, ports[row])))
            } else {
                head
            },
            None => head,
        }
    }
}

/// Joins each host with the port of its row into an HTTP candidate of
/// unknown country; a row without a host or without a port gives none.
pub fn join_rows(hosts: &Vec<Option<String>>, ports: &Vec<String>) -> (batch: Vec<ProxyMetadata>)
    ensures
        batch.deep_view() == joined_rows(hosts.deep_view(), ports.deep_view()),
{
    let ghost all = hosts.deep_view();
    let mut batch: Vec<ProxyMetadata> = Vec::new();
    let mut i: usize = 0;
    assert(batch.deep_view() =~= joined_rows(all.take(0), ports.deep_view()));
    while i < hosts.len()
        invariant
            i <= hosts.len(),
            all == hosts.deep_view(),
            batch.deep_view() == joined_rows(all.take(i as int), ports.deep_view()),
        decreases hosts.len() - i,
    {
        proof {
            assert(all.take(i + 1).drop_last() =~= all.take(i as int));
            assert(all.take(i + 1).last() == hosts@[i as int].deep_view());
        }
        let ghost before = batch.deep_view();
        match &hosts[i] {
            Some(host) => {
                if i < ports.len() {
                    let addr = join_address(host.as_str(), ports[i].as_str());
                    batch.push(ProxyMetadata::http(addr));
                    assert(batch.deep_view() =~= before.push(
                        ProxyMetadata::plain(joined(host@, ports.deep_view()[i as int])),
                    ));
                }
            },
            None => {},
        }
        i += 1;
    }
    assert(all.take(all.len() as int) =~= all);
    batch
}

/// The host of each row, given what the pattern captured in each script;
/// an error where the pattern was not accepted.
pub open spec fn revealed(quoted: Seq<Option<Option<Seq<char>>>>) -> Result<
    Seq<Option<Seq<char>>>,
    ListError,
> {
    if exists|i: int| 0 <= i < quoted.len() && (#[trigger] quoted[i]) is None {
        Err(ListError::Pattern)
    } else {
        Ok(Seq::new(quoted.len(), |i: int| host_in(quoted[i]->0)))
    }
}

/// What the pattern captures in each script.
pub open spec fn quoted_texts(scripts: Seq<Seq<char>>) -> Seq<Option<Option<Seq<char>>>> {
    scripts.map_values(|script: Seq<char>| first_group(QUOTED_PATTERN@, script))
}

/// Finds the host that each script hides, if it hides one.
pub fn reveal_rows(scripts: &Vec<String>) -> (hosts: Result<Vec<Option<String>>, ListError>)
    ensures
        match hosts {
            Ok(list) => revealed(quoted_texts(scripts.deep_view())) == Ok::<
                Seq<Option<Seq<char>>>,
                ListError,
            >(list.deep_view()),
            Err(e) => revealed(quoted_texts(scripts.deep_view())) == Err::<
                Seq<Option<Seq<char>>>,
                ListError,
            >(e),
        },
{
    let ghost quoted = quoted_texts(scripts.deep_view());
    let mut hosts: Vec<Option<String>> = Vec::new();
    let mut i: usize = 0;
    while i < scripts.len()
        invariant
            i <= scripts.len(),
            quoted == quoted_texts(scripts.deep_view()),
            hosts@.len() == i,
            forall|k: int| 0 <= k < i ==> (#[trigger] quoted[k]) is Some,
            forall|k: int| 0 <= k < i ==> (#[trigger] hosts@[k]).deep_view() == host_in(quoted[k]->0),
        decreases scripts.len() - i,
    {
        assert(quoted[i as int] == first_group(QUOTED_PATTERN@, scripts.deep_view()[i as int]));
        let host = match capture(QUOTED_PATTERN, scripts[i].as_str())? {
            Some(text) => reveal_address(text.as_str()),
            None => None,
        };
        hosts.push(host);
        i += 1;
    }
    assert(hosts.deep_view() =~= Seq::new(quoted.len(), |i: int| host_in(quoted[i]->0)));
    Ok(hosts)
}

/// What the rows list, given for each row what the pattern captured in its
/// script: no candidate for a row without a quoted text or with one that
/// hides no address, and no list at all where the pattern was not accepted.
pub open spec fn rows_listing(
    quoted: Seq<Option<Option<Seq<char>>>>,
    ports: Seq<Seq<char>>,
) -> Result<Seq<MetadataView>, ListError> {
    match revealed(quoted) {
        Ok(hosts) => Ok(joined_rows(hosts, ports)),
        Err(e) => Err(e),
    }
}

/// What two columns list: nothing without a script, nothing where the
/// columns differ in length, else what the rows list.
pub open spec fn assembled(scripts: Seq<Seq<char>>, ports: Seq<Seq<char>>) -> Result<
    Seq<MetadataView>,
    ListError,
> {
    if scripts.len() == 0 {
        Err(ListError::IpNotFound)
    } else if scripts.len() != ports.len() {
        Err(ListError::LengthMismatch)
    } else {
        rows_listing(quoted_texts(scripts), ports)
    }
}

/// Puts the two columns together row by row.
pub fn assemble(scripts: &Vec<String>, ports: &Vec<String>) -> (listing: Listing)
    ensures
        listing_view(listing) == assembled(scripts.deep_view(), ports.deep_view()),
{
    if scripts.len() == 0 {
        return Err(ListError::IpNotFound);
    }
    if scripts.len() != ports.len() {
        return Err(ListError::LengthMismatch);
    }
    let hosts = reveal_rows(scripts)?;
    Ok(join_rows(&hosts, ports))
}

/// What two columns list, where each may be missing because its selector
/// was not accepted.
pub open spec fn listed(scripts: Option<Seq<Seq<char>>>, ports: Option<Seq<Seq<char>>>) -> Result<
    Seq<MetadataView>,
    ListError,
> {
    match (scripts, ports) {
        (Some(scripts), Some(ports)) => assembled(scripts, ports),
        _ => Err(ListError::Markup),
    }
}

/// What the page lists.
pub open spec fn page_listing(page: Seq<char>) -> Result<Seq<MetadataView>, ListError> {
    listed(selected_inner_html(page, IP_SELECTOR@), selected_inner_html(page, PORT_SELECTOR@))
}

/// Decodes the page: scripts and ports, put together row by row.
pub fn parse(page: &str) -> (listing: Listing)
    ensures
        listing_view(listing) == page_listing(page@),
{
    let scripts = inner_html_of(page, IP_SELECTOR)?;
    let ports = inner_html_of(page, PORT_SELECTOR)?;
    assemble(&scripts, &ports)
}

/// The source at www.cool-proxy.net.
#[derive(Debug)]
pub struct CoolProxy {
    base: BaseProvider,
}

impl CoolProxy {
    /// The upstream in force and the batch in store.
    pub closed spec fn state(self) -> BaseProvider {
        self.base
    }

    pub fn new() -> (source: Self)
        ensures
            source.state().proxy_upstream@.len() == 0,
            source.state().proxy_list@.len() == 0,
            source.state().last_update is None,
            source.state().ttl.nanos == 1200 * crate::time::NANOS_PER_SEC,
    {
        CoolProxy { base: BaseProvider::new() }
    }
}

impl Provider for CoolProxy {
    closed spec fn upstream(&self) -> Seq<char> {
        self.base.proxy_upstream@
    }

    fn name(&self) -> (name: &'static str)
        ensures
            name@ == "www.cool-proxy.net"@,
    {
        "www.cool-proxy.net"
    }

    fn set_proxy(&mut self, proxy: String)
        ensures
            final(self).state().proxy_upstream@ == proxy@,
            final(self).state().proxy_list == old(self).state().proxy_list,
            final(self).state().last_update == old(self).state().last_update,
            final(self).state().ttl == old(self).state().ttl,
    {
        self.base.proxy_upstream = proxy;
    }

    fn start_listing(&self, now: Span) -> (step: ListStep)
        ensures
            match step {
                ListStep::Cached(batch) => self.state().fresh(now) && batch.deep_view()
                    == self.state().proxy_list.deep_view(),
                ListStep::Fetch(request) => !self.state().fresh(now) && request.url@ == LIST_URL@
                    && request.headers@.len() == 0 && request.upstream@
                    == self.state().proxy_upstream@,
            },
    {
        if !self.base.should_update(now) {
            return ListStep::Cached(self.base.cached_list());
        }
        ListStep::Fetch(
            Request {
                url: LIST_URL.to_owned(),
                headers: Vec::new(),
                upstream: self.base.proxy_upstream.clone(),
            },
        )
    }

    fn finish_listing(&mut self, page: &str, now: Span) -> (listing: Listing)
        ensures
            listing_view(listing) == page_listing(page@),
            final(self).state().proxy_upstream == old(self).state().proxy_upstream,
            final(self).state().ttl == old(self).state().ttl,
            match listing {
                Ok(batch) => final(self).state().proxy_list.deep_view() == batch.deep_view()
                    && final(self).state().last_update == Some(now),
                Err(_) => final(self).state().proxy_list == old(self).state().proxy_list
                    && final(self).state().last_update == old(self).state().last_update,
            },
    {
        let batch = parse(page)?;
        self.base.update_cache(clone_list(&batch), now);
        Ok(batch)
    }
}

} // verus!
