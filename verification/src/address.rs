//! Numeric internet addresses and how they are written.
//!
//! A candidate is named by `host:port`. The host is an address in numbers:
//! four decimal octets joined by dots, or, between square brackets, groups
//! of hexadecimal digits joined by colons. Names that would have to be
//! looked up are not addresses, and neither is port 0.

use crate::text::{
    all_digits, chars_of, digits_value, find, position, read_digits, split, split_at_char,
};
use vstd::prelude::*;

verus! {

/// A numeric internet address: four octets, or eight groups of sixteen bits.
#[derive(Debug, Clone, Copy, PartialEq, Eq, Hash)]
pub enum IpAddress {
    V4([u8; 4]),
    V6([u16; 8]),
}

/// An address and a port.
#[derive(Debug, Clone, Copy, PartialEq, Eq, Hash)]
pub struct SocketAddress {
    pub ip: IpAddress,
    pub port: u16,
}

/// The octet that `s` writes: one to three decimal digits, without a
/// leading zero, at most 255.
pub open spec fn octet_of(s: Seq<char>) -> Option<u8> {
    if 1 <= s.len() <= 3 && all_digits(s) && (s.len() == 1 || s[0] != '0') && digits_value(s)
        <= 255 {
        Some(digits_value(s) as u8)
    } else {
        None
    }
}

/// The four octets that `s` writes, joined by dots.
pub open spec fn ipv4_of(s: Seq<char>) -> Option<Seq<u8>> {
    let parts = split(s, '.');
    if parts.len() == 4 && octet_of(parts[0]) is Some && octet_of(parts[1]) is Some && octet_of(
        parts[2],
    ) is Some && octet_of(parts[3]) is Some {
        Some(
            seq![
                octet_of(parts[0])->0,
                octet_of(parts[1])->0,
                octet_of(parts[2])->0,
                octet_of(parts[3])->0,
            ],
        )
    } else {
        None
    }
}

/// The port that `s` writes: decimal digits that make a number from 1 to 65535.
pub open spec fn port_of(s: Seq<char>) -> Option<u16> {
    if s.len() > 0 && all_digits(s) && 1 <= digits_value(s) <= 65535 {
        Some(digits_value(s) as u16)
    } else {
        None
    }
}

/// Whether `c` is a hexadecimal digit.
pub open spec fn is_hex(c: char) -> bool {
    ('0' <= c <= '9') || ('a' <= c <= 'f') || ('A' <= c <= 'F')
}

/// The number that the hexadecimal digit `c` stands for.
pub open spec fn hex_value(c: char) -> int {
    if '0' <= c <= '9' {
        c as u32 - 0x30
    } else if 'a' <= c <= 'f' {
        c as u32 - 0x61 + 10
    } else {
        c as u32 - 0x41 + 10
    }
}

/// The number that a run of hexadecimal digits writes.
pub open spec fn hex_digits_value(s: Seq<char>) -> nat
    decreases s.len(),
{
    if s.len() == 0 {
        0
    } else {
        (16 * hex_digits_value(s.drop_last()) + hex_value(s.last())) as nat
    }
}

/// The group that `s` writes: one to four hexadecimal digits.
pub open spec fn group_of(s: Seq<char>) -> Option<u16> {
    if 1 <= s.len() <= 4 && (forall|i: int| 0 <= i < s.len() ==> is_hex(#[trigger] s[i])) {
        Some(hex_digits_value(s) as u16)
    } else {
        None
    }
}

/// The two groups that four octets fill.
pub open spec fn groups_of_octets(o: Seq<u8>) -> Seq<u16> {
    seq![(o[0] * 256 + o[1]) as u16, (o[2] * 256 + o[3]) as u16]
}

/// The groups that the given pieces write. Each piece is a group; where
/// `dotted` holds, the last piece may instead be four octets joined by
/// dots, which fill two groups.
pub open spec fn groups_of(pieces: Seq<Seq<char>>, dotted: bool) -> Option<Seq<u16>>
    decreases pieces.len(),
{
    if pieces.len() == 0 {
        Some(Seq::empty())
    } else {
        match groups_of(pieces.drop_last(), false) {
            None => None,
            Some(head) => match group_of(pieces.last()) {
                Some(group) => Some(head.push(group)),
                None => if dotted {
                    match ipv4_of(pieces.last()) {
                        Some(octets) => Some(head + groups_of_octets(octets)),
                        None => None,
                    }
                } else {
                    None
                },
            },
        }
    }
}

/// The groups of a text of groups joined by colons; none for an empty text.
pub open spec fn run_of(s: Seq<char>, dotted: bool) -> Option<Seq<u16>> {
    if s.len() == 0 {
        Some(Seq::empty())
    } else {
        groups_of(split(s, ':'), dotted)
    }
}

/// The index of the first pair of colons in `s`, or the length of `s`
/// where there is none.
pub open spec fn gap_position(s: Seq<char>) -> int
    decreases s.len(),
{
    if s.len() < 2 {
        s.len() as int
    } else if s[0] == ':' && s[1] == ':' {
        0
    } else {
        1 + gap_position(s.drop_first())
    }
}

/// `n` groups of zero.
pub open spec fn zeros(n: int) -> Seq<u16> {
    Seq::new(n as nat, |i: int| 0u16)
}

/// The eight groups that `s` writes. Without a pair of colons there are
/// eight groups, the last two of which may be written as dotted octets. A
/// pair of colons stands for as many groups of zero as are missing, at
/// least one.
pub open spec fn ipv6_of(s: Seq<char>) -> Option<Seq<u16>> {
    let gap = gap_position(s);
    if gap >= s.len() {
        match run_of(s, true) {
            Some(groups) => if groups.len() == 8 { Some(groups) } else { None },
            None => None,
        }
    } else {
        match (run_of(s.take(gap), false), run_of(s.skip(gap + 2), true)) {
            (Some(head), Some(tail)) => if head.len() + tail.len() <= 7 {
                Some(head + zeros(8 - head.len() - tail.len()) + tail)
            } else {
                None
            },
            _ => None,
        }
    }
}

/// An address as its numbers.
pub enum IpView {
    V4(Seq<u8>),
    V6(Seq<u16>),
}

impl View for IpAddress {
    type V = IpView;

    open spec fn view(&self) -> IpView {
        match self {
            IpAddress::V4(octets) => IpView::V4(octets@),
            IpAddress::V6(groups) => IpView::V6(groups@),
        }
    }
}

/// The address and port that `s` writes: `a.b.c.d:port`, or `[groups]:port`.
pub open spec fn socket_of(s: Seq<char>) -> Option<(IpView, u16)> {
    if s.len() > 0 && s[0] == '[' {
        let close = position(s, ']');
        if close + 1 < s.len() && s[close + 1] == ':' {
            match (ipv6_of(s.subrange(1, close)), port_of(s.skip(close + 2))) {
                (Some(groups), Some(port)) => Some((IpView::V6(groups), port)),
                _ => None,
            }
        } else {
            None
        }
    } else {
        let colon = position(s, ':');
        if colon < s.len() {
            match (ipv4_of(s.take(colon)), port_of(s.skip(colon + 1))) {
                (Some(octets), Some(port)) => Some((IpView::V4(octets), port)),
                _ => None,
            }
        } else {
            None
        }
    }
}

fn read_octet(s: &[char]) -> (octet: Option<u8>)
    ensures
        octet == octet_of(s@),
{
    if s.len() < 1 || s.len() > 3 {
        return None;
    }
    if s.len() > 1 && s[0] == '0' {
        return None;
    }
    match read_digits(s, 255) {
        Some(value) => Some(value as u8),
        None => None,
    }
}

fn read_ipv4(s: &[char]) -> (octets: Option<[u8; 4]>)
    ensures
        octets matches Some(o) ==> ipv4_of(s@) == Some(o@),
        octets is None ==> ipv4_of(s@) is None,
{
    let parts = split_at_char(s, '.');
    if parts.len() != 4 {
        return None;
    }
    let a = read_octet(parts[0]);
    let b = read_octet(parts[1]);
    let c = read_octet(parts[2]);
    let d = read_octet(parts[3]);
    match (a, b, c, d) {
        (Some(a), Some(b), Some(c), Some(d)) => {
            let octets = [a, b, c, d];
            assert(octets@ =~= seq![a, b, c, d]);
            Some(octets)
        },
        _ => None,
    }
}

fn read_port(s: &[char]) -> (port: Option<u16>)
    ensures
        port == port_of(s@),
{
    match read_digits(s, 65535) {
        Some(value) => if value >= 1 {
            Some(value as u16)
        } else {
            None
        },
        None => None,
    }
}

fn read_hex(c: char) -> (value: Option<u16>)
    ensures
        value is Some <==> is_hex(c),
        value matches Some(v) ==> v == hex_value(c),
{
    if '0' <= c && c <= '9' {
        Some((c as u32 - 0x30) as u16)
    } else if 'a' <= c && c <= 'f' {
        Some((c as u32 - 0x61 + 10) as u16)
    } else if 'A' <= c && c <= 'F' {
        Some((c as u32 - 0x41 + 10) as u16)
    } else {
        None
    }
}

proof fn lemma_hex_digits_bound(s: Seq<char>)
    requires
        s.len() <= 4,
        forall|i: int| 0 <= i < s.len() ==> is_hex(#[trigger] s[i]),
    ensures
        s.len() == 0 ==> hex_digits_value(s) == 0,
        s.len() == 1 ==> hex_digits_value(s) < 0x10,
        s.len() == 2 ==> hex_digits_value(s) < 0x100,
        s.len() == 3 ==> hex_digits_value(s) < 0x1000,
        s.len() == 4 ==> hex_digits_value(s) < 0x10000,
    decreases s.len(),
{
    if s.len() > 0 {
        assert(is_hex(s[s.len() - 1]));
        assert forall|i: int| 0 <= i < s.drop_last().len() implies is_hex(
            #[trigger] s.drop_last()[i],
        ) by {
            assert(s.drop_last()[i] == s[i]);
        }
        lemma_hex_digits_bound(s.drop_last());
    }
}

fn read_group(s: &[char]) -> (group: Option<u16>)
    ensures
        group == group_of(s@),
{
    if s.len() < 1 || s.len() > 4 {
        return None;
    }
    let mut value: u32 = 0;
    let mut i: usize = 0;
    while i < s.len()
        invariant
            i <= s.len() <= 4,
            forall|k: int| 0 <= k < i ==> is_hex(#[trigger] s@[k]),
            value == hex_digits_value(s@.take(i as int)),
            value < 0x10000,
        decreases s.len() - i,
    {
        match read_hex(s[i]) {
            Some(digit) => {
                proof {
                    let next = s@.take(i + 1);
                    assert(next.drop_last() =~= s@.take(i as int));
                    assert forall|k: int| 0 <= k < next.len() implies is_hex(#[trigger] next[k]) by {
                        assert(next[k] == s@[k]);
                    }
                    lemma_hex_digits_bound(next);
                }
                value = 16 * value + digit as u32;
            },
            None => { return None; },
        }
        i += 1;
    }
    assert(s@.take(s@.len() as int) =~= s@);
    Some(value as u16)
}

/// Once the pieces up to `k` write no groups, neither do all the pieces.
proof fn lemma_groups_fail(pieces: Seq<Seq<char>>, dotted: bool, k: int)
    requires
        0 <= k < pieces.len(),
        groups_of(pieces.take(k), false) is None,
    ensures
        groups_of(pieces, dotted) is None,
    decreases pieces.len() - k,
{
    if k + 1 < pieces.len() {
        assert(pieces.take(k + 1).drop_last() =~= pieces.take(k));
        lemma_groups_fail(pieces, dotted, k + 1);
    } else {
        assert(pieces.drop_last() =~= pieces.take(k));
    }
}

fn read_run(s: &[char], dotted: bool) -> (groups: Option<Vec<u16>>)
    ensures
        groups matches Some(g) ==> run_of(s@, dotted) == Some(g@),
        groups is None ==> run_of(s@, dotted) is None,
{
    let mut groups: Vec<u16> = Vec::new();
    if s.len() == 0 {
        return Some(groups);
    }
    let pieces = split_at_char(s, ':');
    let ghost all = split(s@, ':');
    let last = pieces.len() - 1;
    let mut k: usize = 0;
    assert(all.take(0) =~= Seq::empty());
    while k < last
        invariant
            k <= last,
            last + 1 == pieces.len(),
            all == split(s@, ':'),
            pieces@.len() == all.len(),
            forall|i: int| 0 <= i < pieces@.len() ==> (#[trigger] pieces@[i])@ == all[i],
            groups_of(all.take(k as int), false) == Some(groups@),
        decreases last - k,
    {
        proof {
            assert(all.take(k + 1).drop_last() =~= all.take(k as int));
            assert(all.take(k + 1).last() == all[k as int]);
        }
        match read_group(pieces[k]) {
            Some(group) => groups.push(group),
            None => {
                proof {
                    lemma_groups_fail(all, dotted, k + 1);
                }
                return None;
            },
        }
        k += 1;
    }
    proof {
        assert(all.drop_last() =~= all.take(last as int));
        assert(all.last() == all[last as int]);
    }
    match read_group(pieces[last]) {
        Some(group) => {
            groups.push(group);
            Some(groups)
        },
        None => {
            if !dotted {
                return None;
            }
            match read_ipv4(pieces[last]) {
                Some(octets) => {
                    let ghost head = groups@;
                    groups.push((octets[0] as u16) * 256 + octets[1] as u16);
                    groups.push((octets[2] as u16) * 256 + octets[3] as u16);
                    assert(groups@ =~= head + groups_of_octets(octets@));
                    Some(groups)
                },
                None => None,
            }
        },
    }
}

fn find_gap(s: &[char]) -> (gap: usize)
    ensures
        gap == gap_position(s@),
        gap <= s@.len(),
        gap < s@.len() ==> gap + 2 <= s@.len(),
{
    let n = s.len();
    let mut i: usize = 0;
    assert(s@.skip(0) =~= s@);
    while n - i > 1 && !(s[i] == ':' && s[i + 1] == ':')
        invariant
            i <= n,
            n == s@.len(),
            gap_position(s@) == i + gap_position(s@.skip(i as int)),
        decreases n - i,
    {
        assert(s@.skip(i as int).drop_first() =~= s@.skip(i + 1));
        i += 1;
    }
    if n - i > 1 {
        i
    } else {
        proof {
            if i < n {
                assert(s@.skip(i as int).len() == 1);
            }
        }
        n
    }
}

fn read_ipv6(s: &[char]) -> (groups: Option<[u16; 8]>)
    ensures
        groups matches Some(g) ==> ipv6_of(s@) == Some(g@),
        groups is None ==> ipv6_of(s@) is None,
{
    let n = s.len();
    let gap = find_gap(s);
    let mut all: Vec<u16> = Vec::new();
    if gap >= n {
        match read_run(s, true) {
            Some(groups) => {
                if groups.len() != 8 {
                    return None;
                }
                all = groups;
            },
            None => { return None; },
        }
    } else {
        let front = &s[0..gap];
        let back = &s[gap + 2..n];
        assert(front@ =~= s@.take(gap as int));
        assert(back@ =~= s@.skip(gap + 2));
        let head = match read_run(front, false) {
            Some(head) => head,
            None => { return None; },
        };
        let tail = match read_run(back, true) {
            Some(tail) => tail,
            None => { return None; },
        };
        if head.len() > 7 || tail.len() > 7 - head.len() {
            return None;
        }
        let missing = 8 - head.len() - tail.len();
        let mut i: usize = 0;
        while i < head.len()
            invariant
                i <= head.len(),
                all@ == head@.take(i as int),
            decreases head.len() - i,
        {
            all.push(head[i]);
            assert(head@.take(i + 1) =~= head@.take(i as int).push(head@[i as int]));
            i += 1;
        }
        let mut i: usize = 0;
        while i < missing
            invariant
                i <= missing,
                all@ == head@.take(head@.len() as int) + zeros(i as int),
            decreases missing - i,
        {
            all.push(0);
            assert(head@.take(head@.len() as int) + zeros(i + 1) =~= (head@.take(
                head@.len() as int,
            ) + zeros(i as int)).push(0u16));
            i += 1;
        }
        let mut i: usize = 0;
        while i < tail.len()
            invariant
                i <= tail.len(),
                all@ == head@.take(head@.len() as int) + zeros(missing as int) + tail@.take(
                    i as int,
                ),
            decreases tail.len() - i,
        {
            all.push(tail[i]);
            assert(head@.take(head@.len() as int) + zeros(missing as int) + tail@.take(i + 1) =~= (
            head@.take(head@.len() as int) + zeros(missing as int) + tail@.take(i as int)).push(
                tail@[i as int],
            ));
            i += 1;
        }
        assert(all@ =~= head@ + zeros(8 - head@.len() - tail@.len()) + tail@);
    }
    let groups = [all[0], all[1], all[2], all[3], all[4], all[5], all[6], all[7]];
    assert(groups@ =~= all@);
    Some(groups)
}

/// Reads `host:port`: a dotted address, or a bracketed address in groups,
/// each followed by a colon and a port from 1 to 65535.
pub fn parse_address(addr: &str) -> (socket: Option<SocketAddress>)
    ensures
        socket matches Some(a) ==> socket_of(addr@) == Some((a.ip@, a.port)),
        socket is None ==> socket_of(addr@) is None,
{
    let text = chars_of(addr);
    let s = text.as_slice();
    let n = s.len();
    if n > 0 && s[0] == '[' {
        let close = find(s, ']');
        if close >= n || close + 1 >= n || s[close + 1] != ':' {
            return None;
        }
        proof {
            crate::text::lemma_position(s@, ']');
        }
        let inside = &s[1..close];
        let rest = &s[close + 2..n];
        assert(inside@ =~= addr@.subrange(1, close as int));
        assert(rest@ =~= addr@.skip(close + 2));
        match (read_ipv6(inside), read_port(rest)) {
            (Some(groups), Some(port)) => Some(SocketAddress { ip: IpAddress::V6(groups), port }),
            _ => None,
        }
    } else {
        let colon = find(s, ':');
        if colon >= n {
            return None;
        }
        let host = &s[0..colon];
        let rest = &s[colon + 1..n];
        assert(host@ =~= addr@.take(colon as int));
        assert(rest@ =~= addr@.skip(colon + 1));
        match (read_ipv4(host), read_port(rest)) {
            (Some(octets), Some(port)) => Some(SocketAddress { ip: IpAddress::V4(octets), port }),
            _ => None,
        }
    }
}

} // verus!
