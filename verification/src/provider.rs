//! What every listing source offers.
//!
//! A source never touches the network itself. It says which page it wants,
//! and later decodes the page it is given; whoever drives it does the
//! fetching in between.

use crate::proxy::{MetadataView, ProxyMetadata};
use crate::time::Span;
use vstd::prelude::*;

verus! {

/// Why a source produced no batch.
#[derive(Debug, Clone, Copy, PartialEq, Eq, Hash, Structural)]
pub enum ListError {
    /// The page could not be fetched.
    Transport,
    /// A selector of the source was not accepted as CSS.
    Markup,
    /// A pattern of the source was not accepted as a regular expression.
    Pattern,
    /// The page holds no address.
    IpNotFound,
    /// The columns of the table differ in length.
    LengthMismatch,
    /// The page does not hold the array of octets.
    OctetsNotFound,
    /// The page does not hold the array of ports.
    PortsNotFound,
    /// The page does not hold the expression that rotates the octets.
    RotationNotFound,
}

/// A batch, or the reason why there is none.
pub type Listing = Result<Vec<ProxyMetadata>, ListError>;

/// A `Listing` as plain values.
pub open spec fn listing_view(listing: Listing) -> Result<Seq<MetadataView>, ListError> {
    match listing {
        Ok(batch) => Ok(batch.deep_view()),
        Err(e) => Err(e),
    }
}

/// How long a request for a listing may take.
pub fn list_timeout() -> (t: Span)
    ensures
        t.nanos == 10 * crate::time::NANOS_PER_SEC,
{
    Span::from_secs(10)
}

/// A page that a source wants fetched.
#[derive(Debug)]
pub struct Request {
    /// The address of the page.
    pub url: String,
    /// Header lines to send along, as name and value.
    pub headers: Vec<(String, String)>,
    /// The `host:port` of the proxy to go through; empty to go directly.
    pub upstream: String,
}

/// What a source does next when asked for its list.
#[derive(Debug)]
pub enum ListStep {
    /// The batch it still holds is fresh: this is the list.
    Cached(Vec<ProxyMetadata>),
    /// The page must be fetched and handed to `finish_listing`.
    Fetch(Request),
}

/// A source of candidates.
pub trait Provider {
    /// The proxy that requests of this source go through; empty for none.
    spec fn upstream(&self) -> Seq<char>;

    /// A stable name for the source, by custom the host it reads.
    fn name(&self) -> (name: &'static str);

    /// Routes the requests that follow through `proxy`; an empty `proxy`
    /// routes them directly again.
    fn set_proxy(&mut self, proxy: String)
        ensures
            final(self).upstream() == proxy@,
    ;

    /// Begins a listing at time `now`: either the batch is at hand, or a
    /// page is asked for, to go through the upstream in force.
    fn start_listing(&self, now: Span) -> (step: ListStep)
        ensures
            step matches ListStep::Fetch(request) ==> request.upstream@ == self.upstream(),
    ;

    /// Ends a listing with the page that was fetched at time `now`.
    fn finish_listing(&mut self, page: &str, now: Span) -> (listing: Listing)
        ensures
            final(self).upstream() == old(self).upstream(),
    ;
}

} // verus!
