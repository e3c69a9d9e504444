//! What a consumer asks of a proxy: protocol, country, speed.
//!
//! A filter is four independent conditions. One that is absent accepts
//! everything. Countries are compared without regard to the case of ASCII
//! letters.

use crate::proxy::{MetadataView, Proxy, ProxyMetadata, ProxyType, ProxyView};
use crate::text::{eq_ignore_ascii_case, eq_ignore_case};
use crate::time::Span;
use vstd::prelude::*;

verus! {

#[derive(Debug)]
pub struct ProxyFilter {
    /// The protocols that are accepted.
    pub proxy_types: Option<Vec<ProxyType>>,
    /// The countries that are accepted.
    pub include_countries: Option<Vec<String>>,
    /// The countries that are refused.
    pub exclude_countries: Option<Vec<String>>,
    /// The longest latency that is accepted.
    pub max_latency: Option<Span>,
}

/// A `ProxyFilter` as plain values.
pub struct FilterView {
    pub proxy_types: Option<Seq<ProxyType>>,
    pub include_countries: Option<Seq<Seq<char>>>,
    pub exclude_countries: Option<Seq<Seq<char>>>,
    pub max_latency: Option<Span>,
}

/// Whether one of `countries` is `country`, but for the case of letters.
pub open spec fn names_country(countries: Seq<Seq<char>>, country: Seq<char>) -> bool {
    exists|i: int| 0 <= i < countries.len() && eq_ignore_case(#[trigger] countries[i], country)
}

impl FilterView {
    /// The filter without conditions.
    pub open spec fn open() -> FilterView {
        FilterView {
            proxy_types: None,
            include_countries: None,
            exclude_countries: None,
            max_latency: None,
        }
    }

    pub open spec fn with_proxy_types(self, types: Seq<ProxyType>) -> FilterView {
        FilterView { proxy_types: Some(types), ..self }
    }

    pub open spec fn with_include_countries(self, countries: Seq<Seq<char>>) -> FilterView {
        FilterView { include_countries: Some(countries), ..self }
    }

    pub open spec fn with_exclude_countries(self, countries: Seq<Seq<char>>) -> FilterView {
        FilterView { exclude_countries: Some(countries), ..self }
    }

    pub open spec fn with_max_latency(self, latency: Span) -> FilterView {
        FilterView { max_latency: Some(latency), ..self }
    }

    /// Whether the protocol is among the accepted ones.
    pub open spec fn accepts_kind(self, kind: ProxyType) -> bool {
        match self.proxy_types {
            Some(types) => types.contains(kind),
            None => true,
        }
    }

    /// Whether the country is among the accepted ones and not among the refused.
    pub open spec fn accepts_country(self, country: Seq<char>) -> bool {
        &&& self.include_countries matches Some(countries) ==> names_country(countries, country)
        &&& self.exclude_countries matches Some(countries) ==> !names_country(countries, country)
    }

    /// Whether the latency is within the bound.
    pub open spec fn accepts_latency(self, latency: Span) -> bool {
        match self.max_latency {
            Some(max) => latency.nanos <= max.nanos,
            None => true,
        }
    }

    /// Whether a candidate is worth a verification.
    pub open spec fn accepts_metadata(self, meta: MetadataView) -> bool {
        self.accepts_kind(meta.kind) && self.accepts_country(meta.country)
    }

    /// Whether a verified proxy may be handed out.
    pub open spec fn accepts_proxy(self, proxy: ProxyView) -> bool {
        self.accepts_metadata(proxy.metadata()) && self.accepts_latency(proxy.latency)
    }
}

impl View for ProxyFilter {
    type V = FilterView;

    open spec fn view(&self) -> FilterView {
        FilterView {
            proxy_types: match self.proxy_types {
                Some(types) => Some(types@),
                None => None,
            },
            include_countries: self.include_countries.deep_view(),
            exclude_countries: self.exclude_countries.deep_view(),
            max_latency: self.max_latency,
        }
    }
}

fn copy_kinds(list: &Vec<ProxyType>) -> (copy: Vec<ProxyType>)
    ensures
        copy@ == list@,
{
    let mut copy: Vec<ProxyType> = Vec::new();
    let mut i: usize = 0;
    while i < list.len()
        invariant
            i <= list.len(),
            copy@ == list@.take(i as int),
        decreases list.len() - i,
    {
        copy.push(list[i]);
        assert(list@.take(i + 1) =~= list@.take(i as int).push(list@[i as int]));
        i += 1;
    }
    assert(list@.take(list@.len() as int) =~= list@);
    copy
}

fn copy_countries(list: &Vec<String>) -> (copy: Vec<String>)
    ensures
        copy.deep_view() == list.deep_view(),
{
    let mut copy: Vec<String> = Vec::new();
    let mut i: usize = 0;
    while i < list.len()
        invariant
            i <= list.len(),
            copy@.len() == i,
            forall|k: int| 0 <= k < i ==> (#[trigger] copy@[k])@ == list@[k]@,
        decreases list.len() - i,
    {
        copy.push(list[i].clone());
        i += 1;
    }
    assert(copy.deep_view() =~= list.deep_view());
    copy
}

impl Clone for ProxyFilter {
    fn clone(&self) -> (copy: Self)
        ensures
            copy@ == self@,
    {
        ProxyFilter {
            proxy_types: match &self.proxy_types {
                Some(types) => Some(copy_kinds(types)),
                None => None,
            },
            include_countries: match &self.include_countries {
                Some(countries) => Some(copy_countries(countries)),
                None => None,
            },
            exclude_countries: match &self.exclude_countries {
                Some(countries) => Some(copy_countries(countries)),
                None => None,
            },
            max_latency: self.max_latency,
        }
    }
}

fn holds_kind(types: &Vec<ProxyType>, kind: ProxyType) -> (found: bool)
    ensures
        found == types@.contains(kind),
{
    let mut i: usize = 0;
    while i < types.len()
        invariant
            i <= types.len(),
            forall|k: int| 0 <= k < i ==> types@[k] != kind,
        decreases types.len() - i,
    {
        if types[i] == kind {
            return true;
        }
        i += 1;
    }
    false
}

fn holds_country(countries: &Vec<String>, country: &str) -> (found: bool)
    ensures
        found == names_country(countries.deep_view(), country@),
{
    let mut i: usize = 0;
    while i < countries.len()
        invariant
            i <= countries.len(),
            forall|k: int|
                0 <= k < i ==> !eq_ignore_case(#[trigger] countries.deep_view()[k], country@),
        decreases countries.len() - i,
    {
        if eq_ignore_ascii_case(countries[i].as_str(), country) {
            assert(eq_ignore_case(countries.deep_view()[i as int], country@));
            return true;
        }
        i += 1;
    }
    false
}

impl ProxyFilter {
    /// The filter without conditions: it accepts every candidate and every proxy.
    pub fn new() -> (filter: Self)
        ensures
            filter@ == FilterView::open(),
            forall|meta: MetadataView| filter@.accepts_metadata(meta),
            forall|proxy: ProxyView| filter@.accepts_proxy(proxy),
    {
        ProxyFilter {
            proxy_types: None,
            include_countries: None,
            exclude_countries: None,
            max_latency: None,
        }
    }

    /// The same filter, accepting the given protocols only.
    pub fn with_proxy_types(self, types: Vec<ProxyType>) -> (filter: Self)
        ensures
            filter@ == self@.with_proxy_types(types@),
    {
        let mut filter = self;
        filter.proxy_types = Some(types);
        filter
    }

    /// The same filter, accepting the given countries only.
    pub fn with_include_countries(self, countries: Vec<String>) -> (filter: Self)
        ensures
            filter@ == self@.with_include_countries(countries.deep_view()),
    {
        let mut filter = self;
        filter.include_countries = Some(countries);
        filter
    }

    /// The same filter, refusing the given countries.
    pub fn with_exclude_countries(self, countries: Vec<String>) -> (filter: Self)
        ensures
            filter@ == self@.with_exclude_countries(countries.deep_view()),
    {
        let mut filter = self;
        filter.exclude_countries = Some(countries);
        filter
    }

    /// The same filter, refusing a latency above the given one.
    pub fn with_max_latency(self, latency: Span) -> (filter: Self)
        ensures
            filter@ == self@.with_max_latency(latency),
    {
        let mut filter = self;
        filter.max_latency = Some(latency);
        filter
    }

    /// Decides from protocol and country whether a candidate is worth a verification.
    pub fn filter_metadata(&self, meta: &ProxyMetadata) -> (accepted: bool)
        ensures
            accepted == self@.accepts_metadata(meta@),
    {
        self.accepts(meta.kind, meta.country.as_str())
    }

    /// Decides whether a verified proxy may be handed out: protocol and
    /// country as for a candidate, and the latency within the bound.
    pub fn filter_proxy(&self, proxy: &Proxy) -> (accepted: bool)
        ensures
            accepted == self@.accepts_proxy(proxy@),
    {
        if !self.accepts(proxy.kind, proxy.country.as_str()) {
            return false;
        }
        match self.max_latency {
            Some(max) => proxy.latency.nanos <= max.nanos,
            None => true,
        }
    }

    fn accepts(&self, kind: ProxyType, country: &str) -> (accepted: bool)
        ensures
            accepted == (self@.accepts_kind(kind) && self@.accepts_country(country@)),
    {
        match &self.proxy_types {
            Some(types) => {
                if !holds_kind(types, kind) {
                    return false;
                }
            },
            None => {},
        }
        match &self.include_countries {
            Some(countries) => {
                if !holds_country(countries, country) {
                    return false;
                }
            },
            None => {},
        }
        match &self.exclude_countries {
            Some(countries) => {
                if holds_country(countries, country) {
                    return false;
                }
            },
            None => {},
        }
        true
    }
}

impl Default for ProxyFilter {
    fn default() -> (filter: Self)
        ensures
            filter@ == FilterView::open(),
    {
        ProxyFilter::new()
    }
}

/// The filter without conditions accepts every candidate and every
/// verified proxy.
pub proof fn law_open_filter_accepts_all(meta: MetadataView, proxy: ProxyView)
    ensures
        FilterView::open().accepts_metadata(meta),
        FilterView::open().accepts_proxy(proxy),
{
}

/// A filter whose only condition is the single protocol `kind` accepts a
/// candidate exactly where the candidate speaks `kind`.
pub proof fn law_single_type(kind: ProxyType, meta: MetadataView)
    ensures
        FilterView::open().with_proxy_types(seq![kind]).accepts_metadata(meta) <==> meta.kind
            == kind,
{
    let types = seq![kind];
    if meta.kind == kind {
        assert(types[0] == meta.kind);
    }
}

/// Texts that differ in the case of letters only are interchangeable:
/// the relation is symmetric and transitive.
pub proof fn lemma_eq_ignore_case_equivalence(a: Seq<char>, b: Seq<char>, c: Seq<char>)
    ensures
        eq_ignore_case(a, a),
        eq_ignore_case(a, b) ==> eq_ignore_case(b, a),
        eq_ignore_case(a, b) && eq_ignore_case(b, c) ==> eq_ignore_case(a, c),
{
}

/// The case of a candidate's country changes no decision: two candidates
/// that differ in nothing but the case of letters in their country are
/// accepted by the same filters.
pub proof fn law_country_case_of_candidate(filter: FilterView, a: MetadataView, b: MetadataView)
    requires
        a.kind == b.kind,
        eq_ignore_case(a.country, b.country),
    ensures
        filter.accepts_metadata(a) == filter.accepts_metadata(b),
{
    assert forall|countries: Seq<Seq<char>>|
        names_country(countries, a.country) == names_country(countries, b.country) by {
        lemma_names_country_case(countries, a.country, b.country);
    }
}

/// The case of a filter's countries changes no decision: two filters that
/// differ in nothing but the case of letters in the countries they name
/// accept the same candidates.
pub proof fn law_country_case_of_filter(f: FilterView, g: FilterView, meta: MetadataView)
    requires
        f.proxy_types == g.proxy_types,
        same_countries(f.include_countries, g.include_countries),
        same_countries(f.exclude_countries, g.exclude_countries),
    ensures
        f.accepts_metadata(meta) == g.accepts_metadata(meta),
{
    lemma_same_countries_name(f.include_countries, g.include_countries, meta.country);
    lemma_same_countries_name(f.exclude_countries, g.exclude_countries, meta.country);
}

/// Whether two lists of countries are both absent, or name the same
/// countries entry by entry but for the case of letters.
pub open spec fn same_countries(a: Option<Seq<Seq<char>>>, b: Option<Seq<Seq<char>>>) -> bool {
    match (a, b) {
        (None, None) => true,
        (Some(a), Some(b)) => a.len() == b.len() && forall|i: int|
            0 <= i < a.len() ==> eq_ignore_case(#[trigger] a[i], b[i]),
        _ => false,
    }
}

proof fn lemma_names_country_case(countries: Seq<Seq<char>>, a: Seq<char>, b: Seq<char>)
    requires
        eq_ignore_case(a, b),
    ensures
        names_country(countries, a) == names_country(countries, b),
{
    if names_country(countries, a) {
        let i = choose|i: int| 0 <= i < countries.len() && eq_ignore_case(#[trigger] countries[i], a);
        lemma_eq_ignore_case_equivalence(countries[i], a, b);
    }
    if names_country(countries, b) {
        let i = choose|i: int| 0 <= i < countries.len() && eq_ignore_case(#[trigger] countries[i], b);
        lemma_eq_ignore_case_equivalence(b, a, a);
        lemma_eq_ignore_case_equivalence(countries[i], b, a);
    }
}

proof fn lemma_same_countries_name(
    a: Option<Seq<Seq<char>>>,
    b: Option<Seq<Seq<char>>>,
    country: Seq<char>,
)
    requires
        same_countries(a, b),
    ensures
        a matches Some(x) ==> b matches Some(y) && names_country(x, country) == names_country(
            y,
            country,
        ),
        a is None ==> b is None,
{
    match (a, b) {
        (Some(x), Some(y)) => {
            if names_country(x, country) {
                let i = choose|i: int| 0 <= i < x.len() && eq_ignore_case(#[trigger] x[i], country);
                lemma_eq_ignore_case_equivalence(x[i], y[i], y[i]);
                lemma_eq_ignore_case_equivalence(y[i], x[i], country);
            }
            if names_country(y, country) {
                let i = choose|i: int| 0 <= i < y.len() && eq_ignore_case(#[trigger] y[i], country);
                lemma_eq_ignore_case_equivalence(x[i], y[i], country);
            }
        },
        _ => {},
    }
}

/// A proxy that a filter with a bound on the latency accepts is no slower
/// than the bound.
pub proof fn law_accepted_latency(filter: FilterView, proxy: ProxyView, max: Span)
    requires
        filter.max_latency == Some(max),
        filter.accepts_proxy(proxy),
    ensures
        proxy.latency.nanos <= max.nanos,
{
}

} // verus!
