//! The two request builders: reverse geocoding of a coordinate, and place
//! search by coordinate, text or IP address. Each setter hands back a new
//! builder; `params` lists the query parameters of the finished request.

use vstd::prelude::*;
use crate::decimal::{Decimal, decimal_text, digits_of, count_text};
use crate::place::{Accuracy, PlaceType, accuracy_text, place_type_tag, pairs_view};
use crate::text::{push_text, same_text};

verus! {

broadcast use vstd::std_specs::vec::group_vec_axioms;

/// The value of the first parameter named `key`.
pub open spec fn param_value(ps: Seq<(Seq<char>, Seq<char>)>, key: Seq<char>) -> Option<Seq<char>>
    decreases ps.len(),
{
    if ps.len() == 0 {
        None
    } else if ps[0].0 == key {
        Some(ps[0].1)
    } else {
        param_value(ps.drop_first(), key)
    }
}

/// The `accuracy` parameter, when set.
pub open spec fn accuracy_param(a: Option<Accuracy>) -> Seq<(Seq<char>, Seq<char>)> {
    match a {
        Some(x) => seq![("accuracy"@, accuracy_text(x))],
        None => Seq::empty(),
    }
}

/// The `granularity` parameter, when set.
pub open spec fn granularity_param(g: Option<PlaceType>) -> Seq<(Seq<char>, Seq<char>)> {
    match g {
        Some(x) => seq![("granularity"@, place_type_tag(x))],
        None => Seq::empty(),
    }
}

/// The `max_results` parameter, when set.
pub open spec fn max_results_param(m: Option<nat>) -> Seq<(Seq<char>, Seq<char>)> {
    match m {
        Some(x) => seq![("max_results"@, digits_of(x))],
        None => Seq::empty(),
    }
}

/// The `contained_within` parameter, when set.
pub open spec fn contained_within_param(c: Option<Seq<char>>) -> Seq<(Seq<char>, Seq<char>)> {
    match c {
        Some(x) => seq![("contained_within"@, x)],
        None => Seq::empty(),
    }
}

/// One `attribute:<key>` parameter for each attribute, in order.
pub open spec fn attribute_params(attrs: Seq<(Seq<char>, Seq<char>)>) -> Seq<(Seq<char>, Seq<char>)> {
    Seq::new(attrs.len(), |i: int| ("attribute:"@ + attrs[i].0, attrs[i].1))
}

/// The attributes with `key` set to `value`: the first entry of that key
/// takes the new value, or the pair is added at the end.
pub open spec fn attr_update(s: Seq<(Seq<char>, Seq<char>)>, key: Seq<char>, value: Seq<char>) -> Seq<
    (Seq<char>, Seq<char>),
>
    decreases s.len(),
{
    if s.len() == 0 {
        seq![(key, value)]
    } else if s[0].0 == key {
        seq![(key, value)] + s.drop_first()
    } else {
        seq![s[0]] + attr_update(s.drop_first(), key, value)
    }
}

/// Whether no two pairs share a key.
pub open spec fn keys_distinct(s: Seq<(Seq<char>, Seq<char>)>) -> bool {
    forall|i: int, j: int|
        0 <= i < s.len() && 0 <= j < s.len() && i != j ==> (#[trigger] s[i]).0 != (#[trigger] s[j]).0
}

/// How many results a reverse geocode asks for: zero and anything above
/// twenty become twenty.
pub open spec fn geocode_max_results(n: u32) -> nat {
    if n == 0 || n > 20 {
        20
    } else {
        n as nat
    }
}

fn push_param(ps: &mut Vec<(String, String)>, key: &str, value: String)
    ensures
        pairs_view(final(ps)@) == pairs_view(old(ps)@).push((key@, value@)),
{
    ps.push((key.to_owned(), value));
    assert(pairs_view(ps@) =~= pairs_view(old(ps)@).push((key@, value@)));
}

fn push_accuracy(ps: &mut Vec<(String, String)>, a: Option<Accuracy>)
    ensures
        pairs_view(final(ps)@) == pairs_view(old(ps)@) + accuracy_param(a),
{
    match a {
        Some(x) => push_param(ps, "accuracy", x.to_string()),
        None => {},
    }
    assert(pairs_view(ps@) =~= pairs_view(old(ps)@) + accuracy_param(a));
}

fn push_granularity(ps: &mut Vec<(String, String)>, g: Option<PlaceType>)
    ensures
        pairs_view(final(ps)@) == pairs_view(old(ps)@) + granularity_param(g),
{
    match g {
        Some(x) => push_param(ps, "granularity", x.to_string()),
        None => {},
    }
    assert(pairs_view(ps@) =~= pairs_view(old(ps)@) + granularity_param(g));
}

fn push_max_results(ps: &mut Vec<(String, String)>, m: Option<u32>)
    ensures
        pairs_view(final(ps)@) == pairs_view(old(ps)@) + max_results_param(
            match m {
                Some(n) => Some(n as nat),
                None => None,
            },
        ),
{
    match m {
        Some(n) => push_param(ps, "max_results", count_text(n)),
        None => {},
    }
    assert(pairs_view(ps@) =~= pairs_view(old(ps)@) + max_results_param(
        match m {
            Some(n) => Some(n as nat),
            None => None,
        },
    ));
}

/// A reverse geocode request being put together.
pub struct GeocodeBuilder {
    coordinate: (Decimal, Decimal),
    accuracy: Option<Accuracy>,
    granularity: Option<PlaceType>,
    max_results: Option<u32>,
}

impl GeocodeBuilder {
    pub closed spec fn spec_latitude(&self) -> Decimal {
        self.coordinate.0
    }

    pub closed spec fn spec_longitude(&self) -> Decimal {
        self.coordinate.1
    }

    pub closed spec fn spec_accuracy(&self) -> Option<Accuracy> {
        self.accuracy
    }

    pub closed spec fn spec_granularity(&self) -> Option<PlaceType> {
        self.granularity
    }

    pub closed spec fn spec_max_results(&self) -> Option<u32> {
        self.max_results
    }

    /// The query parameters of the request: `lat` and `long`, then each
    /// optional parameter that was set, `max_results` clamped.
    pub open spec fn params_spec(&self) -> Seq<(Seq<char>, Seq<char>)> {
        seq![
            ("lat"@, decimal_text(self.spec_latitude())),
            ("long"@, decimal_text(self.spec_longitude())),
        ] + accuracy_param(self.spec_accuracy()) + granularity_param(self.spec_granularity())
            + max_results_param(
            match self.spec_max_results() {
                Some(n) => Some(geocode_max_results(n)),
                None => None,
            },
        )
    }

    /// Starts a reverse geocode of the given coordinate, with no optional
    /// parameter set.
    pub fn new(latitude: Decimal, longitude: Decimal) -> (r: GeocodeBuilder)
        ensures
            r.spec_latitude() == latitude,
            r.spec_longitude() == longitude,
            r.spec_accuracy() is None,
            r.spec_granularity() is None,
            r.spec_max_results() is None,
    {
        GeocodeBuilder {
            coordinate: (latitude, longitude),
            accuracy: None,
            granularity: None,
            max_results: None,
        }
    }

    /// Widens the searched area to the given radius (zero by default).
    pub fn accuracy(self, accuracy: Accuracy) -> (r: GeocodeBuilder)
        ensures
            r.spec_accuracy() == Some(accuracy),
            r.spec_latitude() == self.spec_latitude(),
            r.spec_longitude() == self.spec_longitude(),
            r.spec_granularity() == self.spec_granularity(),
            r.spec_max_results() == self.spec_max_results(),
    {
        GeocodeBuilder { accuracy: Some(accuracy), ..self }
    }

    /// Sets the finest kind of place to return.
    pub fn granularity(self, granularity: PlaceType) -> (r: GeocodeBuilder)
        ensures
            r.spec_granularity() == Some(granularity),
            r.spec_latitude() == self.spec_latitude(),
            r.spec_longitude() == self.spec_longitude(),
            r.spec_accuracy() == self.spec_accuracy(),
            r.spec_max_results() == self.spec_max_results(),
    {
        GeocodeBuilder { granularity: Some(granularity), ..self }
    }

    /// Hints how many results to return; zero or more than twenty is sent
    /// as twenty.
    pub fn max_results(self, max_results: u32) -> (r: GeocodeBuilder)
        ensures
            r.spec_max_results() == Some(max_results),
            r.spec_latitude() == self.spec_latitude(),
            r.spec_longitude() == self.spec_longitude(),
            r.spec_accuracy() == self.spec_accuracy(),
            r.spec_granularity() == self.spec_granularity(),
    {
        GeocodeBuilder { max_results: Some(max_results), ..self }
    }

    /// The query parameters of the request, in order.
    pub fn params(&self) -> (r: Vec<(String, String)>)
        ensures
            pairs_view(r@) == self.params_spec(),
    {
        let mut ps: Vec<(String, String)> = Vec::new();
        push_param(&mut ps, "lat", self.coordinate.0.to_text());
        push_param(&mut ps, "long", self.coordinate.1.to_text());
        push_accuracy(&mut ps, self.accuracy);
        push_granularity(&mut ps, self.granularity);
        let clamped = match self.max_results {
            Some(n) => Some(
                if n == 0 || n > 20 {
                    20u32
                } else {
                    n
                },
            ),
            None => None,
        };
        push_max_results(&mut ps, clamped);
        assert(pairs_view(ps@) =~= self.params_spec());
        ps
    }
}

/// Starts a reverse geocode of the given coordinate.
pub fn reverse_geocode(latitude: Decimal, longitude: Decimal) -> (r: GeocodeBuilder)
    ensures
        r.spec_latitude() == latitude,
        r.spec_longitude() == longitude,
        r.spec_accuracy() is None,
        r.spec_granularity() is None,
        r.spec_max_results() is None,
{
    GeocodeBuilder::new(latitude, longitude)
}

/// What a place search looks for.
#[derive(Debug)]
pub enum PlaceQuery {
    /// Places near a coordinate.
    LatLon(Decimal, Decimal),
    /// Places matching a free-text query.
    Query(String),
    /// Places near where an IP address is.
    IPAddress(String),
}

/// The parameters that carry the query itself.
pub open spec fn query_params(q: PlaceQuery) -> Seq<(Seq<char>, Seq<char>)> {
    match q {
        PlaceQuery::LatLon(lat, long) => seq![
            ("lat"@, decimal_text(lat)),
            ("long"@, decimal_text(long)),
        ],
        PlaceQuery::Query(text) => seq![("query"@, text@)],
        PlaceQuery::IPAddress(addr) => seq![("ip"@, addr@)],
    }
}

/// A place search being put together.
pub struct SearchBuilder {
    query: PlaceQuery,
    accuracy: Option<Accuracy>,
    granularity: Option<PlaceType>,
    max_results: Option<u32>,
    contained_within: Option<String>,
    attributes: Vec<(String, String)>,
}

impl SearchBuilder {
    pub closed spec fn spec_query(&self) -> PlaceQuery {
        self.query
    }

    pub closed spec fn spec_accuracy(&self) -> Option<Accuracy> {
        self.accuracy
    }

    pub closed spec fn spec_granularity(&self) -> Option<PlaceType> {
        self.granularity
    }

    pub closed spec fn spec_max_results(&self) -> Option<u32> {
        self.max_results
    }

    pub closed spec fn spec_contained_within(&self) -> Option<Seq<char>> {
        match self.contained_within {
            Some(c) => Some(c@),
            None => None,
        }
    }

    /// The attributes searched for, each key once, in the order first set.
    pub closed spec fn spec_attributes(&self) -> Seq<(Seq<char>, Seq<char>)> {
        pairs_view(self.attributes@)
    }

    /// The query parameters of the search: those of the query, then each
    /// optional parameter that was set, `max_results` as given, then one
    /// `attribute:<key>` parameter per attribute.
    pub open spec fn params_spec(&self) -> Seq<(Seq<char>, Seq<char>)> {
        query_params(self.spec_query()) + accuracy_param(self.spec_accuracy()) + granularity_param(
            self.spec_granularity(),
        ) + max_results_param(
            match self.spec_max_results() {
                Some(n) => Some(n as nat),
                None => None,
            },
        ) + contained_within_param(self.spec_contained_within()) + attribute_params(
            self.spec_attributes(),
        )
    }

    /// Starts a search for the given query, with no optional parameter set.
    pub fn new(query: PlaceQuery) -> (r: SearchBuilder)
        ensures
            r.spec_query() == query,
            r.spec_accuracy() is None,
            r.spec_granularity() is None,
            r.spec_max_results() is None,
            r.spec_contained_within() is None,
            r.spec_attributes().len() == 0,
    {
        SearchBuilder {
            query,
            accuracy: None,
            granularity: None,
            max_results: None,
            contained_within: None,
            attributes: Vec::new(),
        }
    }

    /// Widens the searched area to the given radius (zero by default).
    pub fn accuracy(self, accuracy: Accuracy) -> (r: SearchBuilder)
        ensures
            r.spec_accuracy() == Some(accuracy),
            r.spec_query() == self.spec_query(),
            r.spec_granularity() == self.spec_granularity(),
            r.spec_max_results() == self.spec_max_results(),
            r.spec_contained_within() == self.spec_contained_within(),
            r.spec_attributes() == self.spec_attributes(),
    {
        SearchBuilder { accuracy: Some(accuracy), ..self }
    }

    /// Sets the finest kind of place to return.
    pub fn granularity(self, granularity: PlaceType) -> (r: SearchBuilder)
        ensures
            r.spec_granularity() == Some(granularity),
            r.spec_query() == self.spec_query(),
            r.spec_accuracy() == self.spec_accuracy(),
            r.spec_max_results() == self.spec_max_results(),
            r.spec_contained_within() == self.spec_contained_within(),
            r.spec_attributes() == self.spec_attributes(),
    {
        SearchBuilder { granularity: Some(granularity), ..self }
    }

    /// Hints how many results to return; the value is sent as given.
    pub fn max_results(self, max_results: u32) -> (r: SearchBuilder)
        ensures
            r.spec_max_results() == Some(max_results),
            r.spec_query() == self.spec_query(),
            r.spec_accuracy() == self.spec_accuracy(),
            r.spec_granularity() == self.spec_granularity(),
            r.spec_contained_within() == self.spec_contained_within(),
            r.spec_attributes() == self.spec_attributes(),
    {
        SearchBuilder { max_results: Some(max_results), ..self }
    }

    /// Keeps only places contained in the place with the given id.
    pub fn contained_within(self, contained_id: String) -> (r: SearchBuilder)
        ensures
            r.spec_contained_within() == Some(contained_id@),
            r.spec_query() == self.spec_query(),
            r.spec_accuracy() == self.spec_accuracy(),
            r.spec_granularity() == self.spec_granularity(),
            r.spec_max_results() == self.spec_max_results(),
            r.spec_attributes() == self.spec_attributes(),
    {
        SearchBuilder { contained_within: Some(contained_id), ..self }
    }

    /// Keeps only places whose attribute `attribute_key` has the given value.
    /// Calls accumulate; a later value for the same key replaces the earlier.
    pub fn attribute(self, attribute_key: String, attribute_value: String) -> (r: SearchBuilder)
        ensures
            r.spec_attributes() == attr_update(
                self.spec_attributes(),
                attribute_key@,
                attribute_value@,
            ),
            r.spec_query() == self.spec_query(),
            r.spec_accuracy() == self.spec_accuracy(),
            r.spec_granularity() == self.spec_granularity(),
            r.spec_max_results() == self.spec_max_results(),
            r.spec_contained_within() == self.spec_contained_within(),
            keys_distinct(self.spec_attributes()) ==> keys_distinct(r.spec_attributes()),
    {
        let ghost old_attrs = pairs_view(self.attributes@);
        proof {
            if keys_distinct(old_attrs) {
                lemma_attr_update_distinct(old_attrs, attribute_key@, attribute_value@);
            }
        }
        let mut attrs = self.attributes;
        let n = attrs.len();
        let mut i: usize = 0;
        while i < n
            invariant
                n == attrs@.len(),
                i <= n,
                pairs_view(attrs@) == old_attrs,
                old_attrs == self.spec_attributes(),
                forall|k: int| 0 <= k < i ==> (#[trigger] old_attrs[k]).0 != attribute_key@,
            decreases n - i,
        {
            if same_text(attrs[i].0.as_str(), attribute_key.as_str()) {
                proof {
                    lemma_attr_update_found(old_attrs, attribute_key@, attribute_value@, i as int);
                }
                attrs[i] = (attribute_key, attribute_value);
                assert(pairs_view(attrs@) =~= old_attrs.update(
                    i as int,
                    (attribute_key@, attribute_value@),
                ));
                return SearchBuilder { attributes: attrs, ..self };
            }
            i = i + 1;
        }
        proof {
            lemma_attr_update_absent(old_attrs, attribute_key@, attribute_value@);
        }
        attrs.push((attribute_key, attribute_value));
        assert(pairs_view(attrs@) =~= old_attrs.push((attribute_key@, attribute_value@)));
        SearchBuilder { attributes: attrs, ..self }
    }

    /// The query parameters of the search, in order.
    pub fn params(&self) -> (r: Vec<(String, String)>)
        ensures
            pairs_view(r@) == self.params_spec(),
    {
        let mut ps: Vec<(String, String)> = Vec::new();
        match &self.query {
            PlaceQuery::LatLon(lat, long) => {
                push_param(&mut ps, "lat", lat.to_text());
                push_param(&mut ps, "long", long.to_text());
            },
            PlaceQuery::Query(text) => push_param(&mut ps, "query", text.clone()),
            PlaceQuery::IPAddress(addr) => push_param(&mut ps, "ip", addr.clone()),
        }
        assert(pairs_view(ps@) =~= query_params(self.query));
        push_accuracy(&mut ps, self.accuracy);
        push_granularity(&mut ps, self.granularity);
        push_max_results(&mut ps, self.max_results);
        match &self.contained_within {
            Some(c) => push_param(&mut ps, "contained_within", c.clone()),
            None => {},
        }
        let ghost before = pairs_view(ps@);
        assert(before =~= query_params(self.query) + accuracy_param(self.accuracy)
            + granularity_param(self.granularity) + max_results_param(
            match self.max_results {
                Some(n) => Some(n as nat),
                None => None,
            },
        ) + contained_within_param(self.spec_contained_within()));
        let n = self.attributes.len();
        let mut i: usize = 0;
        while i < n
            invariant
                n == self.attributes@.len(),
                i <= n,
                pairs_view(ps@) == before + attribute_params(
                    pairs_view(self.attributes@).subrange(0, i as int),
                ),
            decreases n - i,
        {
            let mut key = "attribute:".to_owned();
            push_text(&mut key, self.attributes[i].0.as_str());
            push_param(&mut ps, key.as_str(), self.attributes[i].1.clone());
            assert(attribute_params(pairs_view(self.attributes@).subrange(0, i + 1))
                =~= attribute_params(pairs_view(self.attributes@).subrange(0, i as int)).push(
                ("attribute:"@ + self.attributes@[i as int].0@, self.attributes@[i as int].1@),
            ));
            i = i + 1;
        }
        assert(pairs_view(self.attributes@).subrange(0, n as int) =~= pairs_view(
            self.attributes@,
        ));
        ps
    }
}

proof fn lemma_attr_update_found(
    s: Seq<(Seq<char>, Seq<char>)>,
    key: Seq<char>,
    value: Seq<char>,
    i: int,
)
    requires
        0 <= i < s.len(),
        s[i].0 == key,
        forall|k: int| 0 <= k < i ==> (#[trigger] s[k]).0 != key,
    ensures
        attr_update(s, key, value) == s.update(i, (key, value)),
    decreases i,
{
    if i == 0 {
        assert(attr_update(s, key, value) =~= s.update(i, (key, value)));
    } else {
        assert(s[0].0 != key);
        let t = s.drop_first();
        assert forall|k: int| 0 <= k < i - 1 implies (#[trigger] t[k]).0 != key by {
            assert(t[k] == s[k + 1]);
        }
        lemma_attr_update_found(t, key, value, i - 1);
        assert(attr_update(s, key, value) =~= s.update(i, (key, value)));
    }
}

proof fn lemma_attr_update_absent(s: Seq<(Seq<char>, Seq<char>)>, key: Seq<char>, value: Seq<char>)
    requires
        forall|k: int| 0 <= k < s.len() ==> (#[trigger] s[k]).0 != key,
    ensures
        attr_update(s, key, value) == s.push((key, value)),
    decreases s.len(),
{
    if s.len() == 0 {
        assert(attr_update(s, key, value) =~= s.push((key, value)));
    } else {
        assert(s[0].0 != key);
        let t = s.drop_first();
        assert forall|k: int| 0 <= k < t.len() implies (#[trigger] t[k]).0 != key by {
            assert(t[k] == s[k + 1]);
        }
        lemma_attr_update_absent(t, key, value);
        assert(attr_update(s, key, value) =~= s.push((key, value)));
    }
}

/// Starts a search for places near a coordinate.
pub fn search_point(latitude: Decimal, longitude: Decimal) -> (r: SearchBuilder)
    ensures
        r.spec_query() == PlaceQuery::LatLon(latitude, longitude),
        r.spec_accuracy() is None,
        r.spec_granularity() is None,
        r.spec_max_results() is None,
        r.spec_contained_within() is None,
        r.spec_attributes().len() == 0,
{
    SearchBuilder::new(PlaceQuery::LatLon(latitude, longitude))
}

/// Starts a search for places matching a free-text query.
pub fn search_query(query: String) -> (r: SearchBuilder)
    ensures
        r.spec_query() matches PlaceQuery::Query(q) && q@ == query@,
        r.spec_accuracy() is None,
        r.spec_granularity() is None,
        r.spec_max_results() is None,
        r.spec_contained_within() is None,
        r.spec_attributes().len() == 0,
{
    SearchBuilder::new(PlaceQuery::Query(query))
}

/// Starts a search for places near where an IP address is.
pub fn search_ip(addr: String) -> (r: SearchBuilder)
    ensures
        r.spec_query() matches PlaceQuery::IPAddress(a) && a@ == addr@,
        r.spec_accuracy() is None,
        r.spec_granularity() is None,
        r.spec_max_results() is None,
        r.spec_contained_within() is None,
        r.spec_attributes().len() == 0,
{
    SearchBuilder::new(PlaceQuery::IPAddress(addr))
}

proof fn lemma_param_value_skip(
    a: Seq<(Seq<char>, Seq<char>)>,
    b: Seq<(Seq<char>, Seq<char>)>,
    key: Seq<char>,
)
    requires
        forall|i: int| 0 <= i < a.len() ==> (#[trigger] a[i]).0 != key,
    ensures
        param_value(a + b, key) == param_value(b, key),
    decreases a.len(),
{
    if a.len() == 0 {
        assert(a + b =~= b);
    } else {
        let t = a.drop_first();
        assert((a + b).drop_first() =~= t + b);
        assert forall|i: int| 0 <= i < t.len() implies (#[trigger] t[i]).0 != key by {
            assert(t[i] == a[i + 1]);
        }
        lemma_param_value_skip(t, b, key);
    }
}

proof fn lemma_attribute_param_value(s: Seq<(Seq<char>, Seq<char>)>, key: Seq<char>, value: Seq<char>)
    ensures
        param_value(attribute_params(attr_update(s, key, value)), "attribute:"@ + key) == Some(value),
    decreases s.len(),
{
    let ps = attribute_params(attr_update(s, key, value));
    if s.len() == 0 || s[0].0 == key {
        assert(ps[0] == ("attribute:"@ + key, value));
    } else {
        let t = s.drop_first();
        let other = "attribute:"@ + s[0].0;
        let mine = "attribute:"@ + key;
        assert(other.subrange("attribute:"@.len() as int, other.len() as int) =~= s[0].0);
        assert(mine.subrange("attribute:"@.len() as int, mine.len() as int) =~= key);
        assert(ps[0].0 == other);
        assert(other != mine);
        assert(ps.drop_first() =~= attribute_params(attr_update(t, key, value)));
        lemma_attribute_param_value(t, key, value);
    }
}

/// A reverse geocode whose `max_results` is set to `n` sends `n` when it
/// lies between one and twenty, and twenty otherwise.
pub proof fn lemma_geocode_max_results_sent(b: GeocodeBuilder, n: u32)
    requires
        b.spec_max_results() == Some(n),
    ensures
        param_value(b.params_spec(), "max_results"@) == Some(
            digits_of(
                if 1 <= n <= 20 {
                    n as nat
                } else {
                    20
                },
            ),
        ),
{
    reveal_strlit("max_results");
    reveal_strlit("lat");
    reveal_strlit("long");
    reveal_strlit("accuracy");
    reveal_strlit("granularity");
    let prefix = seq![
        ("lat"@, decimal_text(b.spec_latitude())),
        ("long"@, decimal_text(b.spec_longitude())),
    ] + accuracy_param(b.spec_accuracy()) + granularity_param(b.spec_granularity());
    let rest = max_results_param(Some(geocode_max_results(n)));
    assert(b.params_spec() == prefix + rest);
    assert forall|i: int| 0 <= i < prefix.len() implies (#[trigger] prefix[i]).0 != "max_results"@ by {
        assert(prefix[i].0[0] != "max_results"@[0]);
    }
    lemma_param_value_skip(prefix, rest, "max_results"@);
}

/// A search whose `max_results` is set to `n` sends `n` unchanged.
pub proof fn lemma_search_max_results_sent(b: SearchBuilder, n: u32)
    requires
        b.spec_max_results() == Some(n),
    ensures
        param_value(b.params_spec(), "max_results"@) == Some(digits_of(n as nat)),
{
    reveal_strlit("max_results");
    reveal_strlit("lat");
    reveal_strlit("long");
    reveal_strlit("query");
    reveal_strlit("ip");
    reveal_strlit("accuracy");
    reveal_strlit("granularity");
    let prefix = query_params(b.spec_query()) + accuracy_param(b.spec_accuracy())
        + granularity_param(b.spec_granularity());
    let rest = max_results_param(Some(n as nat)) + contained_within_param(
        b.spec_contained_within(),
    ) + attribute_params(b.spec_attributes());
    assert(b.params_spec() =~= prefix + rest);
    assert forall|i: int| 0 <= i < prefix.len() implies (#[trigger] prefix[i]).0 != "max_results"@ by {
        assert(prefix[i].0[0] != "max_results"@[0]);
    }
    lemma_param_value_skip(prefix, rest, "max_results"@);
    assert(rest[0] == ("max_results"@, digits_of(n as nat)));
}

/// Setting attribute `key` to `v1` and then to `v2` sends exactly one
/// parameter `attribute:<key>`, with the value `v2`.
pub proof fn lemma_attribute_later_value_sent(
    first: SearchBuilder,
    second: SearchBuilder,
    third: SearchBuilder,
    key: Seq<char>,
    v1: Seq<char>,
    v2: Seq<char>,
)
    requires
        keys_distinct(first.spec_attributes()),
        second.spec_attributes() == attr_update(first.spec_attributes(), key, v1),
        third.spec_attributes() == attr_update(second.spec_attributes(), key, v2),
    ensures
        param_value(third.params_spec(), "attribute:"@ + key) == Some(v2),
        forall|i: int|
            0 <= i < third.params_spec().len() && (#[trigger] third.params_spec()[i]).0 == "attribute:"@
                + key ==> third.params_spec()[i].1 == v2,
        forall|i: int, j: int|
            0 <= i < third.params_spec().len() && 0 <= j < third.params_spec().len()
                && (#[trigger] third.params_spec()[i]).0 == "attribute:"@ + key
                && (#[trigger] third.params_spec()[j]).0 == "attribute:"@ + key ==> i == j,
{
    reveal_strlit("attribute:");
    reveal_strlit("lat");
    reveal_strlit("long");
    reveal_strlit("query");
    reveal_strlit("ip");
    reveal_strlit("accuracy");
    reveal_strlit("granularity");
    reveal_strlit("max_results");
    reveal_strlit("contained_within");
    let b = third;
    let name = "attribute:"@ + key;
    let prefix = query_params(b.spec_query()) + accuracy_param(b.spec_accuracy())
        + granularity_param(b.spec_granularity()) + max_results_param(
        match b.spec_max_results() {
            Some(n) => Some(n as nat),
            None => None,
        },
    ) + contained_within_param(b.spec_contained_within());
    let rest = attribute_params(b.spec_attributes());
    assert(b.params_spec() == prefix + rest);
    assert(name[1] == 't');
    assert forall|i: int| 0 <= i < prefix.len() implies (#[trigger] prefix[i]).0 != name by {
        assert(prefix[i].0[1] != 't');
    }
    lemma_param_value_skip(prefix, rest, name);
    lemma_attribute_param_value(second.spec_attributes(), key, v2);
    lemma_attr_update_distinct(first.spec_attributes(), key, v1);
    lemma_attr_update_distinct(second.spec_attributes(), key, v2);
    let attrs = b.spec_attributes();
    let ps = b.params_spec();
    let pl = prefix.len() as int;
    assert forall|i: int| 0 <= i < ps.len() && (#[trigger] ps[i]).0 == name implies i >= pl
        && attrs[i - pl].0 == key by {
        if i < pl {
            assert(ps[i] == prefix[i]);
        } else {
            assert(ps[i] == rest[i - pl]);
            lemma_prefix_cancel("attribute:"@, attrs[i - pl].0, key);
        }
    }
    assert forall|i: int| 0 <= i < ps.len() && (#[trigger] ps[i]).0 == name implies ps[i].1 == v2 by {
        assert(ps[i] == rest[i - pl]);
        assert(attrs[i - pl].0 == key);
    }
    assert forall|i: int, j: int|
        0 <= i < ps.len() && 0 <= j < ps.len() && (#[trigger] ps[i]).0 == name && (#[trigger] ps[j]).0
            == name implies i == j by {
        if i != j {
            assert(attrs[i - pl].0 == key && attrs[j - pl].0 == key);
            assert(attrs[i - pl].0 != attrs[j - pl].0);
        }
    }
}

/// Setting a key keeps the keys distinct, and the one entry of that key
/// holds the new value.
pub proof fn lemma_attr_update_distinct(
    s: Seq<(Seq<char>, Seq<char>)>,
    key: Seq<char>,
    value: Seq<char>,
)
    requires
        keys_distinct(s),
    ensures
        keys_distinct(attr_update(s, key, value)),
        forall|j: int|
            0 <= j < attr_update(s, key, value).len() && (#[trigger] attr_update(s, key, value)[j]).0
                == key ==> attr_update(s, key, value)[j].1 == value,
{
    if exists|i: int| 0 <= i < s.len() && s[i].0 == key {
        let i = choose|i: int| 0 <= i < s.len() && s[i].0 == key;
        assert forall|k: int| 0 <= k < i implies (#[trigger] s[k]).0 != key by {
            assert(s[k].0 != s[i].0);
        }
        lemma_attr_update_found(s, key, value, i);
        let t = s.update(i, (key, value));
        assert forall|a: int, b: int| 0 <= a < t.len() && 0 <= b < t.len() && a != b implies (
        #[trigger] t[a]).0 != (#[trigger] t[b]).0 by {
            assert(s[a].0 != s[b].0);
        }
        assert forall|j: int| 0 <= j < t.len() && (#[trigger] t[j]).0 == key implies t[j].1
            == value by {
            if j != i {
                assert(s[j].0 != s[i].0);
            }
        }
    } else {
        lemma_attr_update_absent(s, key, value);
        let t = s.push((key, value));
        assert forall|a: int, b: int| 0 <= a < t.len() && 0 <= b < t.len() && a != b implies (
        #[trigger] t[a]).0 != (#[trigger] t[b]).0 by {
            if a < s.len() && b < s.len() {
                assert(s[a].0 != s[b].0);
            } else if a < s.len() {
                assert(s[a].0 != key);
            } else {
                assert(s[b].0 != key);
            }
        }
        assert forall|j: int| 0 <= j < t.len() && (#[trigger] t[j]).0 == key implies t[j].1
            == value by {
            if j < s.len() {
                assert(s[j].0 != key);
            }
        }
    }
}

proof fn lemma_prefix_cancel(p: Seq<char>, x: Seq<char>, y: Seq<char>)
    requires
        p + x == p + y,
    ensures
        x == y,
{
    assert(x =~= (p + x).subrange(p.len() as int, (p + x).len() as int));
    assert(y =~= (p + y).subrange(p.len() as int, (p + y).len() as int));
}

} // verus!
