//! The values that travel through the pipeline.

use crate::time::Span;
use vstd::prelude::*;
use vstd::string::StringExecFns;

verus! {

/// The protocol a proxy speaks.
#[derive(Debug, Clone, Copy, PartialEq, Eq, Hash, Structural)]
pub enum ProxyType {
    Http,
    Https,
    Socks4,
    Socks5,
    Unknown,
}

impl ProxyType {
    /// The name under which the protocol is printed.
    pub open spec fn label_text(self) -> Seq<char> {
        match self {
            ProxyType::Http => "HTTP"@,
            ProxyType::Https => "HTTPS"@,
            ProxyType::Socks4 => "SOCKS4"@,
            ProxyType::Socks5 => "SOCKS5"@,
            ProxyType::Unknown => "Unknown"@,
        }
    }

    /// The name under which the protocol is printed.
    pub fn label(&self) -> (s: &'static str)
        ensures
            s@ == self.label_text(),
    {
        match self {
            ProxyType::Http => "HTTP",
            ProxyType::Https => "HTTPS",
            ProxyType::Socks4 => "SOCKS4",
            ProxyType::Socks5 => "SOCKS5",
            ProxyType::Unknown => "Unknown",
        }
    }
}

/// What a listing says of a candidate, before anyone has tried it.
#[derive(Debug)]
pub struct ProxyMetadata {
    pub addr: String,
    pub kind: ProxyType,
    pub country: String,
}

/// A `ProxyMetadata` as plain text and tag.
pub struct MetadataView {
    pub addr: Seq<char>,
    pub kind: ProxyType,
    pub country: Seq<char>,
}

impl View for ProxyMetadata {
    type V = MetadataView;

    open spec fn view(&self) -> MetadataView {
        MetadataView { addr: self.addr@, kind: self.kind, country: self.country@ }
    }
}

impl DeepView for ProxyMetadata {
    type V = MetadataView;

    open spec fn deep_view(&self) -> MetadataView {
        self.view()
    }
}

/// The country of a candidate whose listing names none.
pub open spec fn unknown_country() -> Seq<char> {
    seq!['U', 'n', 'k', 'n', 'o', 'w', 'n']
}

/// The address `host:port`.
pub open spec fn joined(host: Seq<char>, port: Seq<char>) -> Seq<char> {
    host + seq![':'] + port
}

/// Joins a host and a port into an address.
pub fn join_address(host: &str, port: &str) -> (addr: String)
    ensures
        addr@ == joined(host@, port@),
{
    let mut addr = host.to_owned();
    addr.push(':');
    addr.append(port);
    addr
}

impl ProxyMetadata {
    /// An HTTP candidate of unknown country.
    pub open spec fn plain(addr: Seq<char>) -> MetadataView {
        MetadataView { addr, kind: ProxyType::Http, country: unknown_country() }
    }

    /// An HTTP candidate of unknown country.
    pub fn http(addr: String) -> (m: ProxyMetadata)
        ensures
            m@ == Self::plain(addr@),
    {
        let unknown = "Unknown";
        proof {
            reveal_strlit("Unknown");
            assert(unknown@ =~= unknown_country());
        }
        ProxyMetadata { addr, kind: ProxyType::Http, country: unknown.to_owned() }
    }
}

impl Clone for ProxyMetadata {
    fn clone(&self) -> (r: Self)
        ensures
            r@ == self@,
    {
        ProxyMetadata { addr: self.addr.clone(), kind: self.kind, country: self.country.clone() }
    }
}

/// A candidate that relayed a request within the measured `latency`.
#[derive(Debug)]
pub struct Proxy {
    pub addr: String,
    pub kind: ProxyType,
    pub country: String,
    pub provider: String,
    pub latency: Span,
}

/// A `Proxy` as plain text, tag and time.
pub struct ProxyView {
    pub addr: Seq<char>,
    pub kind: ProxyType,
    pub country: Seq<char>,
    pub provider: Seq<char>,
    pub latency: Span,
}

impl ProxyView {
    /// What the listing said of this proxy.
    pub open spec fn metadata(self) -> MetadataView {
        MetadataView { addr: self.addr, kind: self.kind, country: self.country }
    }
}

impl View for Proxy {
    type V = ProxyView;

    open spec fn view(&self) -> ProxyView {
        ProxyView {
            addr: self.addr@,
            kind: self.kind,
            country: self.country@,
            provider: self.provider@,
            latency: self.latency,
        }
    }
}

impl DeepView for Proxy {
    type V = ProxyView;

    open spec fn deep_view(&self) -> ProxyView {
        self.view()
    }
}

impl Clone for Proxy {
    fn clone(&self) -> (r: Self)
        ensures
            r@ == self@,
    {
        Proxy {
            addr: self.addr.clone(),
            kind: self.kind,
            country: self.country.clone(),
            provider: self.provider.clone(),
            latency: self.latency,
        }
    }
}

impl Proxy {
    /// What the listing said of this proxy.
    pub fn metadata(&self) -> (m: ProxyMetadata)
        ensures
            m@ == self@.metadata(),
    {
        ProxyMetadata { addr: self.addr.clone(), kind: self.kind, country: self.country.clone() }
    }
}

} // verus!
