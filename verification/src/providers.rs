//! The built-in listing sources and what they share.

pub mod base;
pub mod encoding;
pub mod markup;
pub mod pattern;
pub mod cybersyndrome;
pub mod proxyscrape;
pub mod free_proxy_list;
pub mod cool_proxy;

use crate::time::Span;
use crate::verification::http_prefix;
use vstd::prelude::*;

verus! {

/// The URL of the proxy that a source's client goes through: `http://`
/// and the upstream, or none where no upstream is set.
pub open spec fn upstream_url(upstream: Option<Seq<char>>) -> Option<Seq<char>> {
    match upstream {
        Some(addr) => if addr.len() > 0 { Some(http_prefix() + addr) } else { None },
        None => None,
    }
}

/// How a source's client is set up.
#[derive(Debug)]
pub struct ClientPlan {
    /// How long a request may take in all.
    pub timeout: Span,
    /// The URL of the proxy to go through, if any.
    pub proxy_url: Option<String>,
}

/// Says how to set up the client for a source that goes through `proxy`:
/// ten seconds for a request, and the proxy at `http://<proxy>` unless
/// `proxy` is absent or empty.
pub fn client_plan(proxy: Option<&str>) -> (plan: ClientPlan)
    ensures
        plan.timeout.nanos == 10 * crate::time::NANOS_PER_SEC,
        plan.proxy_url.deep_view() == upstream_url(proxy.deep_view()),
{
    let proxy_url = match proxy {
        Some(addr) => {
            if !addr.is_empty() {
                Some(crate::verification::proxy_url(addr))
            } else {
                None
            }
        },
        None => None,
    };
    ClientPlan { timeout: crate::provider::list_timeout(), proxy_url }
}

} // verus!
