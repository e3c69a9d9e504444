//! What a verification proves.
//!
//! A candidate counts as verified when a request sent through it to an echo
//! service comes back naming the candidate's own host. The caller talks to
//! the network; this module decides whether the candidate may be probed at
//! all and what the answer is worth.

use crate::address::{ipv4_of, ipv6_of, parse_address, socket_of, IpAddress, IpView};
use crate::text::{chars_of, contains, find, has_sub, position};
use crate::time::{Span, NANOS_PER_SEC};
use vstd::prelude::*;
use vstd::string::StringExecFns;

verus! {

/// The service that answers `{"origin": "<ip>[, <ip>]*"}`.
pub const ECHO_URL: &'static str = "http://httpbin.org/ip";

/// How long one probe may take.
pub fn probe_timeout() -> (t: Span)
    ensures
        t.nanos == 2 * NANOS_PER_SEC,
{
    Span::from_secs(2)
}

/// Whether the octets are an address that a proxy on the public internet
/// can have: not loopback, unspecified, multicast, broadcast, private or
/// link-local.
pub open spec fn is_safe_v4(o: Seq<u8>) -> bool {
    &&& o[0] != 127
    &&& !(o[0] == 0 && o[1] == 0 && o[2] == 0 && o[3] == 0)
    &&& !(224 <= o[0] <= 239)
    &&& !(o[0] == 255 && o[1] == 255 && o[2] == 255 && o[3] == 255)
    &&& o[0] != 10
    &&& !(o[0] == 172 && 16 <= o[1] <= 31)
    &&& !(o[0] == 192 && o[1] == 168)
    &&& !(o[0] == 169 && o[1] == 254)
}

/// Whether the groups are an address that a proxy on the public internet
/// can have: not loopback (`::1`), unspecified (`::`), multicast
/// (`ff00::/8`), unique local (`fc00::/7`) or link-local (`fe80::/10`).
pub open spec fn is_safe_v6(s: Seq<u16>) -> bool {
    &&& !(s[0] == 0 && s[1] == 0 && s[2] == 0 && s[3] == 0 && s[4] == 0 && s[5] == 0 && s[6] == 0
        && (s[7] == 0 || s[7] == 1))
    &&& !(0xff00 <= s[0])
    &&& !(0xfc00 <= s[0] <= 0xfdff)
    &&& !(0xfe80 <= s[0] <= 0xfebf)
}

/// Whether a proxy may have this address.
pub open spec fn is_safe(ip: IpView) -> bool {
    match ip {
        IpView::V4(octets) => is_safe_v4(octets),
        IpView::V6(groups) => is_safe_v6(groups),
    }
}

/// Decides whether a proxy may have this address.
pub fn is_safe_ip(ip: &IpAddress) -> (safe: bool)
    ensures
        safe == is_safe(ip@),
{
    match ip {
        IpAddress::V4(octets) => {
            if octets[0] == 127 {
                return false;
            }
            if octets[0] == 0 && octets[1] == 0 && octets[2] == 0 && octets[3] == 0 {
                return false;
            }
            if octets[0] >= 224 && octets[0] <= 239 {
                return false;
            }
            if octets[0] == 10 {
                return false;
            }
            if octets[0] == 172 && octets[1] >= 16 && octets[1] <= 31 {
                return false;
            }
            if octets[0] == 192 && octets[1] == 168 {
                return false;
            }
            if octets[0] == 169 && octets[1] == 254 {
                return false;
            }
            if octets[0] == 255 && octets[1] == 255 && octets[2] == 255 && octets[3] == 255 {
                return false;
            }
            true
        },
        IpAddress::V6(groups) => {
            let first: u16 = groups[0];
            if first == 0 && groups[1] == 0 && groups[2] == 0 && groups[3] == 0 && groups[4] == 0
                && groups[5] == 0 && groups[6] == 0 && (groups[7] == 0 || groups[7] == 1) {
                return false;
            }
            assert((first & 0xff00 == 0xff00) <==> 0xff00 <= first) by (bit_vector);
            assert((first & 0xfe00 == 0xfc00) <==> 0xfc00 <= first <= 0xfdff) by (bit_vector);
            assert((first & 0xffc0 == 0xfe80) <==> 0xfe80 <= first <= 0xfebf) by (bit_vector);
            if first & 0xff00 == 0xff00 {
                return false;
            }
            if first & 0xfe00 == 0xfc00 {
                return false;
            }
            if first & 0xffc0 == 0xfe80 {
                return false;
            }
            true
        },
    }
}

/// The host of `host:port` as it is written: what stands between the
/// square brackets where the address begins with one, and what stands
/// before the first colon otherwise.
pub open spec fn host_of(addr: Seq<char>) -> Seq<char> {
    if addr.len() > 0 && addr[0] == '[' {
        addr.subrange(1, position(addr, ']'))
    } else {
        addr.take(position(addr, ':'))
    }
}

/// The part of an address that is its host.
pub fn host_part<'a>(addr: &'a [char]) -> (host: &'a [char])
    ensures
        host@ == host_of(addr@),
{
    if addr.len() > 0 && addr[0] == '[' {
        let close = find(addr, ']');
        proof {
            crate::text::lemma_position(addr@, ']');
        }
        &addr[1..close]
    } else {
        let colon = find(addr, ':');
        let head = &addr[0..colon];
        assert(head@ =~= addr@.take(colon as int));
        head
    }
}

/// Whether the echo names the candidate: `origin` holds the candidate's
/// host, as written, somewhere in it.
pub open spec fn confirms(origin: Seq<char>, addr: Seq<char>) -> bool {
    has_sub(origin, host_of(addr))
}

/// Decides whether the echo names the candidate.
pub fn origin_confirms(origin: &str, addr: &str) -> (confirmed: bool)
    ensures
        confirmed == confirms(origin@, addr@),
{
    let origin = chars_of(origin);
    let text = chars_of(addr);
    contains(origin.as_slice(), host_part(text.as_slice()))
}

/// The scheme and separator in front of a proxy's address.
pub open spec fn http_prefix() -> Seq<char> {
    seq!['h', 't', 't', 'p', ':', '/', '/']
}

/// The URL under which a client reaches the proxy at `addr`.
pub fn proxy_url(addr: &str) -> (url: String)
    ensures
        url@ == http_prefix() + addr@,
{
    let scheme = "http://";
    proof {
        reveal_strlit("http://");
        assert(scheme@ =~= http_prefix());
    }
    let mut url = scheme.to_owned();
    url.append(addr);
    url
}

/// One request through a candidate.
#[derive(Debug)]
pub struct Probe {
    /// The URL of the candidate, through which the request goes.
    pub proxy_url: String,
    /// The page to ask for.
    pub target: String,
    /// How long the whole request may take.
    pub timeout: Span,
}

/// How a probe ended.
#[derive(Debug)]
pub enum ProbeOutcome {
    /// No answer came: the request failed on the way or ran out of time.
    Failed,
    /// An answer came.
    Answered {
        /// The status code of the answer.
        status: u16,
        /// What the body gives as the request's origin; `None` where the
        /// body is no echo.
        origin: Option<String>,
        /// The time from sending the request to reading the answer.
        elapsed: Span,
    },
}

/// Whether a status code reports success.
pub open spec fn is_success(status: u16) -> bool {
    200 <= status <= 299
}

/// Whether a candidate may be probed: its address is written in numbers,
/// and they are those of a safe address.
pub open spec fn may_probe(addr: Seq<char>) -> bool {
    match socket_of(addr) {
        Some((ip, _)) => is_safe(ip),
        None => false,
    }
}

/// Decides whether a candidate may be probed.
pub fn is_probeable(addr: &str) -> (allowed: bool)
    ensures
        allowed == may_probe(addr@),
{
    match parse_address(addr) {
        Some(socket) => is_safe_ip(&socket.ip),
        None => false,
    }
}

/// Begins a verification. A candidate whose address is not written in
/// numbers or is not safe is never probed; any other is probed through
/// `http://<addr>` at the echo service, for at most two seconds.
pub fn start_verification(addr: &str) -> (probe: Option<Probe>)
    ensures
        probe is Some <==> may_probe(addr@),
        probe matches Some(p) ==> p.proxy_url@ == http_prefix() + addr@ && p.target@ == ECHO_URL@
            && p.timeout.nanos == 2 * NANOS_PER_SEC,
{
    if !is_probeable(addr) {
        return None;
    }
    Some(Probe { proxy_url: proxy_url(addr), target: ECHO_URL.to_owned(), timeout: probe_timeout() })
}

/// Whether a probe kept to its time: it took no more than two seconds.
pub open spec fn in_time(elapsed: Span) -> bool {
    elapsed.nanos <= 2 * NANOS_PER_SEC
}

/// What a verification yields: the measured time where the candidate might
/// be probed, the echo names it and the probe kept to its time; nothing
/// otherwise.
pub open spec fn verdict(addr: Seq<char>, echo: Option<(Seq<char>, Span)>) -> Option<Span> {
    match echo {
        Some((origin, elapsed)) => if may_probe(addr) && confirms(origin, addr) && in_time(
            elapsed,
        ) {
            Some(elapsed)
        } else {
            None
        },
        None => None,
    }
}

impl ProbeOutcome {
    /// The echo and the time it took: there is one where an answer came
    /// that reports success and whose body is an echo.
    pub open spec fn echo(self) -> Option<(Seq<char>, Span)> {
        match self {
            ProbeOutcome::Failed => None,
            ProbeOutcome::Answered { status, origin, elapsed } => match origin {
                Some(origin) => if is_success(status) {
                    Some((origin@, elapsed))
                } else {
                    None
                },
                None => None,
            },
        }
    }
}

/// Ends a verification with the outcome of the probe. The latency is the
/// time the probe took; there is one exactly for a safe address and an
/// answer that reports success, names the candidate's host and came within
/// the two seconds a probe may take.
pub fn verify_proxy(addr: &str, outcome: &ProbeOutcome) -> (latency: Option<Span>)
    ensures
        latency == verdict(addr@, outcome.echo()),
        latency is Some ==> may_probe(addr@),
        latency matches Some(d) ==> d.nanos <= 2 * NANOS_PER_SEC,
{
    if !is_probeable(addr) {
        return None;
    }
    match outcome {
        ProbeOutcome::Failed => None,
        ProbeOutcome::Answered { status, origin, elapsed } => {
            if *status < 200 || *status > 299 {
                return None;
            }
            if elapsed.nanos > probe_timeout().nanos {
                return None;
            }
            match origin {
                Some(origin) => {
                    if origin_confirms(origin.as_str(), addr) {
                        Some(*elapsed)
                    } else {
                        None
                    }
                },
                None => None,
            }
        },
    }
}

/// Whatever passes a verification is written as `host:port` with a port
/// from 1 to 65535, and its host is a numeric address that is neither
/// loopback nor unspecified, multicast, broadcast, private or link-local.
pub proof fn law_verified_is_public(addr: Seq<char>, echo: Option<(Seq<char>, Span)>)
    requires
        verdict(addr, echo) is Some,
    ensures
        match socket_of(addr) {
            Some((ip, port)) => is_safe(ip) && 1 <= port <= 65535,
            None => false,
        },
{
}

/// The host of an address that is written in numbers is those numbers as
/// they are written: the dotted octets, or the groups between the brackets.
pub proof fn law_host_is_the_address(addr: Seq<char>)
    requires
        socket_of(addr) is Some,
    ensures
        match socket_of(addr) {
            Some((IpView::V4(octets), _)) => ipv4_of(host_of(addr)) == Some(octets),
            Some((IpView::V6(groups), _)) => ipv6_of(host_of(addr)) == Some(groups),
            None => false,
        },
{
}

/// A verification confirms a candidate exactly where it may be probed, the
/// echo holds its host and the probe took no more than two seconds.
pub proof fn law_confirmed_by_echo(addr: Seq<char>, origin: Seq<char>, elapsed: Span)
    ensures
        verdict(addr, Some((origin, elapsed))) == (if may_probe(addr) && has_sub(
            origin,
            host_of(addr),
        ) && elapsed.nanos <= 2 * NANOS_PER_SEC {
            Some(elapsed)
        } else {
            None
        }),
{
}

/// No latency is above the two seconds that a probe may take.
pub proof fn law_latency_within_timeout(addr: Seq<char>, echo: Option<(Seq<char>, Span)>)
    ensures
        verdict(addr, echo) matches Some(latency) ==> latency.nanos <= 2 * NANOS_PER_SEC,
{
}

} // verus!
