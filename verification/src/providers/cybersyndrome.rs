//! The source that hides its addresses in script variables.
//!
//! The page carries an array of octets, an array of ports and a sum whose
//! remainder by 120 says how far the octets are rotated to the left. The
//! countries stand in a table whose rows are numbered from `n1`.

use crate::provider::{listing_view, ListError, ListStep, Listing, Provider, Request};
use crate::providers::base::BaseProvider;
use crate::providers::markup::{cells_of, selected_cells, Row, RowView};
use crate::providers::pattern::{capture, first_group};
use crate::proxy::{unknown_country, MetadataView, ProxyMetadata, ProxyType};
use crate::time::Span;
use crate::text::{
    chars_of, contains, decimal, find, has_sub, parse_i32, parse_usize, position, push_decimal, read_i32, read_usize, split, split_at_char, string_of, trim, trimmed,
};
use vstd::prelude::*;

verus! {

/// The number that `s` writes, or 0 where it writes none.
pub open spec fn number_or_zero(s: Seq<char>) -> i32 {
    match parse_i32(s) {
        Some(v) => v,
        None => 0,
    }
}

/// The numbers of a comma-separated list; an entry that is no number counts as 0.
pub open spec fn numbers(text: Seq<char>) -> Seq<i32> {
    split(text, ',').map_values(|piece: Seq<char>| number_or_zero(trimmed(piece)))
}

/// Reads a comma-separated list of numbers.
pub fn read_numbers(text: &[char]) -> (list: Vec<i32>)
    ensures
        list@ == numbers(text@),
{
    let pieces = split_at_char(text, ',');
    let mut list: Vec<i32> = Vec::new();
    let mut k: usize = 0;
    while k < pieces.len()
        invariant
            k <= pieces.len(),
            pieces@.len() == split(text@, ',').len(),
            forall|i: int| 0 <= i < pieces@.len() ==> (#[trigger] pieces@[i])@ == split(text@, ',')[i],
            list@.len() == k,
            forall|i: int| 0 <= i < k ==> list@[i] == #[trigger] numbers(text@)[i],
        decreases pieces.len() - k,
    {
        let value = match read_i32(trim(pieces[k])) {
            Some(v) => v,
            None => 0,
        };
        list.push(value);
        k += 1;
    }
    assert(list@ =~= numbers(text@));
    list
}

/// The marker of a summand that reads a port: `*ps[`.
pub open spec fn port_marker() -> Seq<char> {
    seq!['*', 'p', 's', '[']
}

/// The value of one summand, white space at its ends already removed.
///
/// A summand that holds `*ps[` is a coefficient times the port at the index
/// between the brackets; any other is a plain number. Whatever cannot be
/// read counts as 0.
pub open spec fn term_value(part: Seq<char>, ports: Seq<i32>) -> int {
    if has_sub(part, port_marker()) {
        let factors = split(part, '*');
        if factors.len() != 2 {
            0
        } else {
            let coefficient = number_or_zero(trimmed(factors[0]));
            let cell = trimmed(factors[1]);
            let opening = position(cell, '[');
            let start = if opening < cell.len() { opening + 1 } else { 1 };
            let end = position(cell, ']');
            if start >= end {
                0
            } else {
                let index = match parse_usize(cell.subrange(start, end)) {
                    Some(i) => i,
                    None => 0,
                };
                let port = if index < ports.len() { ports[index as int] } else { 0 };
                coefficient * port
            }
        }
    } else {
        number_or_zero(part) as int
    }
}

/// The sum of the given summands.
pub open spec fn sum_terms(parts: Seq<Seq<char>>, ports: Seq<i32>) -> int
    decreases parts.len(),
{
    if parts.len() == 0 {
        0
    } else {
        sum_terms(parts.drop_last(), ports) + term_value(trimmed(parts.last()), ports)
    }
}

/// The value of the expression `c0 + c1*ps[i1] + ...`, as an integer.
pub open spec fn rotation_sum(expr: Seq<char>, ports: Seq<i32>) -> int {
    sum_terms(split(expr, '+'), ports)
}

pub open spec fn term_bound() -> int {
    0x4000_0000_0000_0000
}

proof fn lemma_product_bound(a: i32, b: i32)
    ensures
        -term_bound() <= a * b <= term_bound(),
{
    assert(-0x4000_0000_0000_0000 <= a * b <= 0x4000_0000_0000_0000) by (nonlinear_arith)
        requires
            -0x8000_0000 <= a <= 0x7fff_ffff,
            -0x8000_0000 <= b <= 0x7fff_ffff,
    ;
}

fn eval_term(part: &[char], ports: &[i32]) -> (value: i64)
    ensures
        value == term_value(part@, ports@),
        -term_bound() <= value <= term_bound(),
{
    let marker: [char; 4] = ['*', 'p', 's', '['];
    assert(marker@ =~= port_marker());
    if contains(part, marker.as_slice()) {
        let factors = split_at_char(part, '*');
        if factors.len() != 2 {
            return 0;
        }
        let coefficient: i32 = match read_i32(trim(factors[0])) {
            Some(v) => v,
            None => 0,
        };
        let cell = trim(factors[1]);
        let opening = find(cell, '[');
        let start: usize = if opening < cell.len() { opening + 1 } else { 1 };
        let end = find(cell, ']');
        if start >= end {
            return 0;
        }
        let index: usize = match read_usize(&cell[start..end]) {
            Some(i) => i,
            None => 0,
        };
        let port: i32 = if index < ports.len() { ports[index] } else { 0 };
        proof {
            lemma_product_bound(coefficient, port);
        }
        (coefficient as i64) * (port as i64)
    } else {
        match read_i32(part) {
            Some(v) => v as i64,
            None => 0,
        }
    }
}

/// Evaluates the expression that rotates the octets: summands joined by
/// `+`, each a number or a number times `ps[i]`. The sum is exact.
pub fn eval_n(expr: &str, ports: &[i32]) -> (sum: i128)
    ensures
        sum == rotation_sum(expr@, ports@),
{
    let text = chars_of(expr);
    let parts = split_at_char(text.as_slice(), '+');
    let ghost all = split(expr@, '+');
    let mut sum: i128 = 0;
    let mut k: usize = 0;
    while k < parts.len()
        invariant
            k <= parts.len(),
            all == split(expr@, '+'),
            parts@.len() == all.len(),
            forall|i: int| 0 <= i < parts@.len() ==> (#[trigger] parts@[i])@ == all[i],
            sum == sum_terms(all.take(k as int), ports@),
            -(k * term_bound()) <= sum <= k * term_bound(),
        decreases parts.len() - k,
    {
        let value = eval_term(trim(parts[k]), ports);
        proof {
            assert(all.take(k + 1).drop_last() =~= all.take(k as int));
            assert((k + 1) * term_bound() == k * term_bound() + term_bound()) by (nonlinear_arith);
            assert(k * term_bound() <= 0xffff_ffff_ffff_ffff * 0x4000_0000_0000_0000) by (nonlinear_arith)
                requires
                    0 <= k <= 0xffff_ffff_ffff_ffff,
                    term_bound() == 0x4000_0000_0000_0000,
            ;
        }
        sum = sum + value as i128;
        k += 1;
    }
    assert(all.take(all.len() as int) =~= all);
    sum
}

/// The remainder of `sum` by 120, with the sign of `sum`.
pub open spec fn rotation(sum: int) -> int {
    if sum >= 0 {
        sum % 120
    } else {
        -((-sum) % 120)
    }
}

/// `octets` turned `n` places to the left; unchanged where `n` is no index of it.
pub open spec fn rotated(octets: Seq<i32>, n: int) -> Seq<i32> {
    if 0 <= n < octets.len() {
        octets.skip(n) + octets.take(n)
    } else {
        octets
    }
}

/// Turns `octets` to the left by the remainder of `sum` by 120, where that
/// remainder is an index of `octets`.
pub fn rotate(octets: Vec<i32>, sum: i128) -> (turned: Vec<i32>)
    ensures
        turned@ == rotated(octets@, rotation(sum as int)),
{
    if sum < 0 {
        assert(rotation(sum as int) <= 0);
        if sum % 120 != 0 || octets.len() == 0 {
            return octets;
        }
    }
    let n: i128 = sum % 120;
    if n < 0 || n >= octets.len() as i128 {
        return octets;
    }
    let n: usize = n as usize;
    let mut turned: Vec<i32> = Vec::new();
    let mut k: usize = n;
    while k < octets.len()
        invariant
            n <= k <= octets.len(),
            turned@ == octets@.subrange(n as int, k as int),
        decreases octets.len() - k,
    {
        turned.push(octets[k]);
        assert(octets@.subrange(n as int, k + 1) =~= octets@.subrange(n as int, k as int).push(
            octets@[k as int],
        ));
        k += 1;
    }
    let mut k: usize = 0;
    while k < n
        invariant
            k <= n < octets.len(),
            turned@ == octets@.skip(n as int) + octets@.take(k as int),
        decreases n - k,
    {
        turned.push(octets[k]);
        assert(octets@.skip(n as int) + octets@.take(k + 1) =~= (octets@.skip(n as int)
            + octets@.take(k as int)).push(octets@[k as int]));
        k += 1;
    }
    turned
}

/// How many addresses the two arrays give: one for every four octets, as
/// far as there are ports.
pub open spec fn listed_count(octets: Seq<i32>, ports: Seq<i32>) -> nat {
    let quads = octets.len() / 4;
    if quads < ports.len() {
        quads
    } else {
        ports.len()
    }
}

/// The smaller of the two counts.
pub fn proxies_len_limit(ips: usize, ports: usize) -> (limit: usize)
    ensures
        limit == (if ips < ports { ips } else { ports }),
{
    if ips < ports {
        ips
    } else {
        ports
    }
}

/// The `j`-th address: four octets joined by dots, a colon, the port.
pub open spec fn address(octets: Seq<i32>, j: int, port: i32) -> Seq<char> {
    decimal(octets[4 * j] as int) + seq!['.'] + decimal(octets[4 * j + 1] as int) + seq!['.']
        + decimal(octets[4 * j + 2] as int) + seq!['.'] + decimal(octets[4 * j + 3] as int)
        + seq![':'] + decimal(port as int)
}

fn write_address(octets: &Vec<i32>, j: usize, port: i32) -> (addr: String)
    requires
        4 * j + 3 < octets@.len(),
    ensures
        addr@ == address(octets@, j as int, port),
{
    let n = octets.len();
    assert(4 * j + 3 < n);
    let mut out: Vec<char> = Vec::new();
    push_decimal(&mut out, octets[4 * j]);
    out.push('.');
    push_decimal(&mut out, octets[4 * j + 1]);
    out.push('.');
    push_decimal(&mut out, octets[4 * j + 2]);
    out.push('.');
    push_decimal(&mut out, octets[4 * j + 3]);
    out.push(':');
    push_decimal(&mut out, port);
    assert(out@ =~= address(octets@, j as int, port));
    string_of(out.as_slice())
}

/// The index that a table row speaks of: its second cell carries the id `n`
/// followed by a number from 1 on, and the row has at least five cells.
pub open spec fn row_index(row: RowView) -> Option<int> {
    if row.len() >= 5 {
        match row[1].0 {
            Some(id) => if id.len() > 0 && id[0] == 'n' {
                match parse_usize(id.drop_first()) {
                    Some(k) => if k > 0 { Some(k - 1) } else { None },
                    None => None,
                }
            } else {
                None
            },
            None => None,
        }
    } else {
        None
    }
}

/// The country of the `j`-th address: the fifth cell of the last row that
/// speaks of `j`, without the white space at its ends.
pub open spec fn country_of(rows: Seq<RowView>, j: int) -> Seq<char>
    decreases rows.len(),
{
    if rows.len() == 0 {
        unknown_country()
    } else if row_index(rows.last()) == Some(j) {
        trimmed(rows.last()[4].1)
    } else {
        country_of(rows.drop_last(), j)
    }
}

fn index_of_row(row: &Row) -> (index: Option<usize>)
    ensures
        index matches Some(k) ==> row_index(row.deep_view()) == Some(k as int),
        index is None ==> row_index(row.deep_view()) is None,
{
    if row.len() < 5 {
        return None;
    }
    match &row[1].0 {
        Some(id) => {
            let id = chars_of(id.as_str());
            if id.len() > 0 && id[0] == 'n' {
                let digits = &id.as_slice()[1..id.len()];
                assert(digits@ =~= id@.drop_first());
                match read_usize(digits) {
                    Some(k) => if k > 0 {
                        Some(k - 1)
                    } else {
                        None
                    },
                    None => None,
                }
            } else {
                None
            }
        },
        None => None,
    }
}

fn indices_of_rows(rows: &Vec<Row>) -> (indices: Vec<Option<usize>>)
    ensures
        indices@.len() == rows@.len(),
        forall|i: int|
            0 <= i < rows@.len() ==> match #[trigger] indices@[i] {
                Some(k) => row_index(rows.deep_view()[i]) == Some(k as int),
                None => row_index(rows.deep_view()[i]) is None,
            },
{
    let mut indices: Vec<Option<usize>> = Vec::new();
    let mut i: usize = 0;
    while i < rows.len()
        invariant
            i <= rows.len(),
            indices@.len() == i,
            forall|k: int|
                0 <= k < i ==> match #[trigger] indices@[k] {
                    Some(n) => row_index(rows.deep_view()[k]) == Some(n as int),
                    None => row_index(rows.deep_view()[k]) is None,
                },
        decreases rows.len() - i,
    {
        let index = index_of_row(&rows[i]);
        assert(rows.deep_view()[i as int] == rows@[i as int].deep_view());
        indices.push(index);
        i += 1;
    }
    indices
}

fn find_country(rows: &Vec<Row>, indices: &Vec<Option<usize>>, j: usize) -> (country: String)
    requires
        indices@.len() == rows@.len(),
        forall|i: int|
            0 <= i < rows@.len() ==> match #[trigger] indices@[i] {
                Some(k) => row_index(rows.deep_view()[i]) == Some(k as int),
                None => row_index(rows.deep_view()[i]) is None,
            },
    ensures
        country@ == country_of(rows.deep_view(), j as int),
{
    let ghost all = rows.deep_view();
    let mut i: usize = rows.len();
    assert(all.take(i as int) =~= all);
    while i > 0
        invariant
            i <= rows.len(),
            all == rows.deep_view(),
            indices@.len() == rows@.len(),
            forall|i: int|
                0 <= i < rows@.len() ==> match #[trigger] indices@[i] {
                    Some(k) => row_index(rows.deep_view()[i]) == Some(k as int),
                    None => row_index(rows.deep_view()[i]) is None,
                },
            country_of(all, j as int) == country_of(all.take(i as int), j as int),
        decreases i,
    {
        i -= 1;
        assert(all.take(i + 1).drop_last() =~= all.take(i as int));
        assert(all.take(i + 1).last() == all[i as int]);
        let hit = match indices[i] {
            Some(k) => k == j,
            None => false,
        };
        if hit {
            let row = &rows[i];
            assert(all[i as int] == row.deep_view());
            assert(row.deep_view()[4] == row@[4].deep_view());
            let text = chars_of(row[4].1.as_str());
            return string_of(trim(text.as_slice()));
        }
    }
    let unknown = "Unknown";
    proof {
        reveal_strlit("Unknown");
        assert(unknown@ =~= unknown_country());
    }
    unknown.to_owned()
}

/// What the page lists, given the three texts taken from its script and the
/// rows of its table.
pub open spec fn decoded(
    octets_text: Seq<char>,
    ports_text: Seq<char>,
    expr: Seq<char>,
    rows: Seq<RowView>,
) -> Seq<MetadataView> {
    let ports = numbers(ports_text);
    let octets = rotated(numbers(octets_text), rotation(rotation_sum(expr, ports)));
    Seq::new(
        listed_count(octets, ports),
        |j: int|
            MetadataView {
                addr: address(octets, j, ports[j]),
                kind: ProxyType::Http,
                country: country_of(rows, j),
            },
    )
}

/// Decodes a listing from the three texts taken from the page's script and
/// the rows of its table.
pub fn decode(octets_text: &str, ports_text: &str, expr: &str, rows: &Vec<Row>) -> (list: Vec<
    ProxyMetadata,
>)
    ensures
        list.deep_view() == decoded(octets_text@, ports_text@, expr@, rows.deep_view()),
{
    let ports = read_numbers(chars_of(ports_text).as_slice());
    let sum = eval_n(expr, ports.as_slice());
    let octets = rotate(read_numbers(chars_of(octets_text).as_slice()), sum);
    let count = proxies_len_limit(octets.len() / 4, ports.len());
    let indices = indices_of_rows(rows);
    let mut list: Vec<ProxyMetadata> = Vec::new();
    let mut j: usize = 0;
    while j < count
        invariant
            j <= count,
            count == listed_count(octets@, ports@),
            indices@.len() == rows@.len(),
            forall|i: int|
                0 <= i < rows@.len() ==> match #[trigger] indices@[i] {
                    Some(k) => row_index(rows.deep_view()[i]) == Some(k as int),
                    None => row_index(rows.deep_view()[i]) is None,
                },
            list@.len() == j,
            forall|i: int|
                0 <= i < j ==> (#[trigger] list@[i])@ == (MetadataView {
                    addr: address(octets@, i, ports@[i]),
                    kind: ProxyType::Http,
                    country: country_of(rows.deep_view(), i),
                }),
        decreases count - j,
    {
        let addr = write_address(&octets, j, ports[j]);
        let country = find_country(rows, &indices, j);
        list.push(ProxyMetadata { addr, kind: ProxyType::Http, country });
        j += 1;
    }
    assert(list.deep_view() =~= decoded(octets_text@, ports_text@, expr@, rows.deep_view()));
    list
}

/// The page that ranks the proxies by speed.
pub const LIST_URL: &'static str = "https://www.cybersyndrome.net/plr6.html";

/// Finds the array of octets in the page's script.
pub const OCTETS_PATTERN: &'static str = r"var\s+as\s*=\s*\[([^\]]+)\];";

/// Finds the array of ports in the page's script.
pub const PORTS_PATTERN: &'static str = r"var\s+ps\s*=\s*\[([^\]]+)\];";

/// Finds the sum whose remainder by 120 rotates the octets.
pub const ROTATION_PATTERN: &'static str = r"var\s+n\s*=\s*\(([^)]+)\)%120;";

pub const ROW_SELECTOR: &'static str = "tr";

pub const CELL_SELECTOR: &'static str = "td";

pub const ID_ATTRIBUTE: &'static str = "id";

/// What a page lists, given what the three patterns capture in it and the
/// rows found in it.
pub open spec fn listed(
    rows: Option<Seq<RowView>>,
    octets: Option<Option<Seq<char>>>,
    ports: Option<Option<Seq<char>>>,
    expr: Option<Option<Seq<char>>>,
) -> Result<Seq<MetadataView>, ListError> {
    match (rows, octets, ports, expr) {
        (None, _, _, _) => Err(ListError::Markup),
        (_, None, _, _) => Err(ListError::Pattern),
        (_, Some(None), _, _) => Err(ListError::OctetsNotFound),
        (_, _, None, _) => Err(ListError::Pattern),
        (_, _, Some(None), _) => Err(ListError::PortsNotFound),
        (_, _, _, None) => Err(ListError::Pattern),
        (_, _, _, Some(None)) => Err(ListError::RotationNotFound),
        (Some(rows), Some(Some(octets)), Some(Some(ports)), Some(Some(expr))) => Ok(
            decoded(octets, ports, expr, rows),
        ),
    }
}

/// What the page lists.
pub open spec fn page_listing(page: Seq<char>) -> Result<Seq<MetadataView>, ListError> {
    listed(
        selected_cells(page, ROW_SELECTOR@, CELL_SELECTOR@, ID_ATTRIBUTE@),
        first_group(OCTETS_PATTERN@, page),
        first_group(PORTS_PATTERN@, page),
        first_group(ROTATION_PATTERN@, page),
    )
}

/// Decodes the page: the countries from its table, the addresses from its script.
pub fn parse(page: &str) -> (listing: Listing)
    ensures
        listing_view(listing) == page_listing(page@),
{
    let rows = cells_of(page, ROW_SELECTOR, CELL_SELECTOR, ID_ATTRIBUTE)?;
    let octets = match capture(OCTETS_PATTERN, page)? {
        Some(text) => text,
        None => { return Err(ListError::OctetsNotFound); },
    };
    let ports = match capture(PORTS_PATTERN, page)? {
        Some(text) => text,
        None => { return Err(ListError::PortsNotFound); },
    };
    let expr = match capture(ROTATION_PATTERN, page)? {
        Some(text) => text,
        None => { return Err(ListError::RotationNotFound); },
    };
    Ok(decode(octets.as_str(), ports.as_str(), expr.as_str(), &rows))
}

/// The source at www.cybersyndrome.net.
#[derive(Debug)]
pub struct Cybersyndrome {
    base: BaseProvider,
}

impl Cybersyndrome {
    /// The upstream in force and the batch in store.
    pub closed spec fn state(self) -> BaseProvider {
        self.base
    }

    pub fn new() -> (source: Self)
        ensures
            source.state().proxy_upstream@.len() == 0,
            source.state().proxy_list@.len() == 0,
            source.state().last_update is None,
            source.state().ttl.nanos == 1200 * crate::time::NANOS_PER_SEC,
    {
        Cybersyndrome { base: BaseProvider::new() }
    }
}

impl Provider for Cybersyndrome {
    closed spec fn upstream(&self) -> Seq<char> {
        self.base.proxy_upstream@
    }

    fn name(&self) -> (name: &'static str)
        ensures
            name@ == "www.cybersyndrome.net"@,
    {
        "www.cybersyndrome.net"
    }

    fn set_proxy(&mut self, proxy: String)
        ensures
            final(self).state().proxy_upstream@ == proxy@,
            final(self).state().proxy_list == old(self).state().proxy_list,
            final(self).state().last_update == old(self).state().last_update,
            final(self).state().ttl == old(self).state().ttl,
    {
        self.base.proxy_upstream = proxy;
    }

    fn start_listing(&self, now: Span) -> (step: ListStep)
        ensures
            match step {
                ListStep::Cached(batch) => self.state().fresh(now) && batch.deep_view()
                    == self.state().proxy_list.deep_view(),
                ListStep::Fetch(request) => !self.state().fresh(now) && request.url@ == LIST_URL@
                    && request.headers@.len() == 0 && request.upstream@
                    == self.state().proxy_upstream@,
            },
    {
        if !self.base.should_update(now) {
            return ListStep::Cached(self.base.cached_list());
        }
        ListStep::Fetch(
            Request {
                url: LIST_URL.to_owned(),
                headers: Vec::new(),
                upstream: self.base.proxy_upstream.clone(),
            },
        )
    }

    fn finish_listing(&mut self, page: &str, now: Span) -> (listing: Listing)
        ensures
            listing_view(listing) == page_listing(page@),
            final(self).state().proxy_upstream == old(self).state().proxy_upstream,
            final(self).state().ttl == old(self).state().ttl,
            match listing {
                Ok(batch) => final(self).state().proxy_list.deep_view() == batch.deep_view()
                    && final(self).state().last_update == Some(now),
                Err(_) => final(self).state().proxy_list == old(self).state().proxy_list
                    && final(self).state().last_update == old(self).state().last_update,
            },
    {
        let batch = parse(page)?;
        self.base.update_cache(crate::providers::base::clone_list(&batch), now);
        Ok(batch)
    }
}

} // verus!
