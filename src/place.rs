//! Places, place types, accuracies, and how places are decoded from and
//! encoded to JSON.

use vstd::prelude::*;
use crate::decimal::{Decimal, decimal_text, is_decimal_numeral, lemma_decimal_text_is_numeral};
use crate::json::{Json, member};
use crate::bounding_box::{bounding_box_of, box_encodes, deserialize, serialize};
use crate::text::{push_text, same_text};

verus! {

broadcast use vstd::std_specs::vec::group_vec_axioms;

/// The kind of region a place is.
#[derive(Clone, Copy, Debug, PartialEq, Eq, Structural)]
pub enum PlaceType {
    /// A coordinate with no area.
    PointOfInterest,
    /// A region within a city.
    Neighborhood,
    /// An entire city.
    City,
    /// An administrative area, such as a state or province.
    Admin,
    /// An entire country.
    Country,
}

/// The one tag of each place type, used on the wire and in query strings.
pub open spec fn place_type_tag(p: PlaceType) -> Seq<char> {
    match p {
        PlaceType::PointOfInterest => seq!['p', 'o', 'i'],
        PlaceType::Neighborhood => seq!['n', 'e', 'i', 'g', 'h', 'b', 'o', 'r', 'h', 'o', 'o', 'd'],
        PlaceType::City => seq!['c', 'i', 't', 'y'],
        PlaceType::Admin => seq!['a', 'd', 'm', 'i', 'n'],
        PlaceType::Country => seq!['c', 'o', 'u', 'n', 't', 'r', 'y'],
    }
}

/// The place type whose tag is `s`, if any.
pub open spec fn place_type_of_tag(s: Seq<char>) -> Option<PlaceType> {
    if s == place_type_tag(PlaceType::PointOfInterest) {
        Some(PlaceType::PointOfInterest)
    } else if s == place_type_tag(PlaceType::Neighborhood) {
        Some(PlaceType::Neighborhood)
    } else if s == place_type_tag(PlaceType::City) {
        Some(PlaceType::City)
    } else if s == place_type_tag(PlaceType::Admin) {
        Some(PlaceType::Admin)
    } else if s == place_type_tag(PlaceType::Country) {
        Some(PlaceType::Country)
    } else {
        None
    }
}

/// The place type that a JSON value names, if any.
pub open spec fn place_type_of(j: Json) -> Option<PlaceType> {
    match j {
        Json::Str(s) => place_type_of_tag(s@),
        _ => None,
    }
}

/// Why a JSON document could not be decoded.
#[derive(Clone, Copy, Debug, PartialEq, Eq, Structural)]
pub enum DecodeError {
    /// A string that is no place type tag, or a value that is no string.
    UnknownPlaceType,
    /// A bounding box without a first ring of coordinate pairs.
    MalformedBoundingBox,
    /// A place record that lacks a field or holds one of the wrong shape.
    MalformedPlace,
    /// A search result without `query.url` or without an array `result.places`.
    MalformedSearchResult,
}

/// The human-readable description of each decode error.
pub open spec fn decode_error_message(e: DecodeError) -> Seq<char> {
    match e {
        DecodeError::UnknownPlaceType => "Unknown place type"@,
        DecodeError::MalformedBoundingBox => "Malformed 'bounding_box' attribute"@,
        DecodeError::MalformedPlace => "Malformed place"@,
        DecodeError::MalformedSearchResult => "Malformed search result"@,
    }
}

impl DecodeError {
    /// A human-readable description of the error.
    pub fn message(&self) -> (r: &'static str)
        ensures
            r@ == decode_error_message(*self),
    {
        match self {
            DecodeError::UnknownPlaceType => "Unknown place type",
            DecodeError::MalformedBoundingBox => "Malformed 'bounding_box' attribute",
            DecodeError::MalformedPlace => "Malformed place",
            DecodeError::MalformedSearchResult => "Malformed search result",
        }
    }
}

impl PlaceType {
    /// The tag of this place type.
    pub fn tag(&self) -> (r: &'static str)
        ensures
            r@ == place_type_tag(*self),
    {
        match self {
            PlaceType::PointOfInterest => {
                proof {
                    reveal_strlit("poi");
                }
                "poi"
            },
            PlaceType::Neighborhood => {
                proof {
                    reveal_strlit("neighborhood");
                }
                "neighborhood"
            },
            PlaceType::City => {
                proof {
                    reveal_strlit("city");
                }
                "city"
            },
            PlaceType::Admin => {
                proof {
                    reveal_strlit("admin");
                }
                "admin"
            },
            PlaceType::Country => {
                proof {
                    reveal_strlit("country");
                }
                "country"
            },
        }
    }

    /// The tag of this place type, as a query parameter carries it.
    pub fn to_string(&self) -> (r: String)
        ensures
            r@ == place_type_tag(*self),
    {
        self.tag().to_owned()
    }

    /// The place type with the given tag.
    pub fn from_tag(s: &str) -> (r: Option<PlaceType>)
        ensures
            r == place_type_of_tag(s@),
    {
        if same_text(s, PlaceType::PointOfInterest.tag()) {
            Some(PlaceType::PointOfInterest)
        } else if same_text(s, PlaceType::Neighborhood.tag()) {
            Some(PlaceType::Neighborhood)
        } else if same_text(s, PlaceType::City.tag()) {
            Some(PlaceType::City)
        } else if same_text(s, PlaceType::Admin.tag()) {
            Some(PlaceType::Admin)
        } else if same_text(s, PlaceType::Country.tag()) {
            Some(PlaceType::Country)
        } else {
            None
        }
    }

    /// The JSON form of this place type: its tag as a string.
    pub fn to_json(&self) -> (r: Json)
        ensures
            r matches Json::Str(s) && s@ == place_type_tag(*self),
    {
        Json::Str(self.to_string())
    }

    /// The place type that a JSON string names.
    pub fn from_json(j: &Json) -> (r: Result<PlaceType, DecodeError>)
        ensures
            match r {
                Ok(p) => place_type_of(*j) == Some(p),
                Err(e) => place_type_of(*j) is None && e == DecodeError::UnknownPlaceType,
            },
    {
        match j {
            Json::Str(s) => match PlaceType::from_tag(s.as_str()) {
                Some(p) => Ok(p),
                None => Err(DecodeError::UnknownPlaceType),
            },
            _ => Err(DecodeError::UnknownPlaceType),
        }
    }
}

/// Decoding the JSON form of a place type gives it back, and its query
/// string form is the text inside that JSON string.
pub proof fn lemma_place_type_round_trip(p: PlaceType, encoded: Json)
    requires
        encoded matches Json::Str(s) && s@ == place_type_tag(p),
    ensures
        place_type_of(encoded) == Some(p),
        place_type_of_tag(encoded->Str_0@) == Some(p),
{
}

/// How accurate a coordinate is, as handed to a search: a radius in meters
/// or in feet.
#[derive(Clone, Copy, Debug, PartialEq, Eq)]
pub enum Accuracy {
    Meters(Decimal),
    Feet(Decimal),
}

/// The unit that follows a distance in feet.
pub open spec fn feet_suffix() -> Seq<char> {
    seq!['f', 't']
}

/// The query string form of an accuracy: meters as a bare decimal, feet as
/// a decimal followed by `ft`.
pub open spec fn accuracy_text(a: Accuracy) -> Seq<char> {
    match a {
        Accuracy::Meters(d) => decimal_text(d),
        Accuracy::Feet(d) => decimal_text(d) + feet_suffix(),
    }
}

/// A decimal numeral, optionally followed by `ft`.
pub open spec fn is_accuracy_numeral(s: Seq<char>) -> bool {
    is_decimal_numeral(s) || exists|t: Seq<char>|
        #![trigger t + feet_suffix()]
        s == t + feet_suffix() && is_decimal_numeral(t)
}

impl Accuracy {
    /// The accuracy as a query parameter carries it.
    pub fn to_string(&self) -> (r: String)
        ensures
            r@ == accuracy_text(*self),
    {
        match self {
            Accuracy::Meters(d) => d.to_text(),
            Accuracy::Feet(d) => {
                let mut out = d.to_text();
                proof {
                    reveal_strlit("ft");
                }
                push_text(&mut out, "ft");
                out
            },
        }
    }
}

/// The query string form of every accuracy is a decimal numeral, with `ft`
/// after it for feet.
pub proof fn lemma_accuracy_text_shape(a: Accuracy)
    ensures
        is_accuracy_numeral(accuracy_text(a)),
{
    match a {
        Accuracy::Meters(d) => lemma_decimal_text_is_numeral(d),
        Accuracy::Feet(d) => {
            lemma_decimal_text_is_numeral(d);
            let t = decimal_text(d);
            assert(accuracy_text(a) == t + feet_suffix());
        },
    }
}

/// Pairs of texts, as character sequences.
pub open spec fn pairs_view(v: Seq<(String, String)>) -> Seq<(Seq<char>, Seq<char>)> {
    Seq::new(v.len(), |i: int| (v[i].0@, v[i].1@))
}

/// A named geographic region.
#[derive(Debug)]
pub struct Place {
    /// The place's identifier.
    pub id: String,
    /// Miscellaneous key/value information, in the order of the JSON object
    /// (one entry per key where the object names each key once).
    pub attributes: Vec<(String, String)>,
    /// The outline of the place, as `(first, second)` coordinate numerals
    /// in the order the service sent them: empty when unknown, one pair for a
    /// point, more for a polygon.
    pub bounding_box: Vec<(String, String)>,
    /// The country containing the place.
    pub country: String,
    /// The short code of that country.
    pub country_code: String,
    /// The full human-readable name.
    pub full_name: String,
    /// The short human-readable name.
    pub name: String,
    /// The kind of region.
    pub place_type: PlaceType,
    /// The places that contain this one, where the service names them.
    pub contained_within: Option<Vec<Place>>,
}

/// The text of a member that holds a string.
pub open spec fn string_member(j: Json, key: Seq<char>) -> Option<Seq<char>> {
    match member(j, key) {
        Some(Json::Str(s)) => Some(s@),
        _ => None,
    }
}

/// The key/value pairs of an object whose values are all strings.
pub open spec fn attributes_of(j: Json) -> Option<Seq<(Seq<char>, Seq<char>)>> {
    match j {
        Json::Object(ms) => if forall|i: int| 0 <= i < ms@.len() ==> (#[trigger] ms@[i]).1 is Str {
            Some(Seq::new(ms@.len(), |i: int| (ms@[i].0@, ms@[i].1->Str_0@)))
        } else {
            None
        },
        _ => None,
    }
}

/// Whether `j` is the JSON form of place `p`: each string field is a member
/// of that name holding a string; `attributes` an object of strings;
/// `bounding_box` as `bounding_box_of` reads it; `place_type` a tag; and
/// `contained_within` absent or `null` for none, else an array of places.
pub open spec fn place_decodes(j: Json, p: Place) -> bool
    decreases p,
{
    &&& string_member(j, "id"@) == Some(p.id@)
    &&& string_member(j, "country"@) == Some(p.country@)
    &&& string_member(j, "country_code"@) == Some(p.country_code@)
    &&& string_member(j, "full_name"@) == Some(p.full_name@)
    &&& string_member(j, "name"@) == Some(p.name@)
    &&& (member(j, "attributes"@) matches Some(a) && attributes_of(a) == Some(
        pairs_view(p.attributes@),
    ))
    &&& (member(j, "bounding_box"@) matches Some(b) && bounding_box_of(b) == Some(
        pairs_view(p.bounding_box@),
    ))
    &&& (member(j, "place_type"@) matches Some(t) && place_type_of(t) == Some(p.place_type))
    &&& match p.contained_within {
        None => member(j, "contained_within"@) is None || member(j, "contained_within"@) == Some(
            Json::Null,
        ),
        Some(v) => member(j, "contained_within"@) matches Some(Json::Array(items))
            && items@.len() == v@.len() && forall|i: int|
            0 <= i < v@.len() ==> place_decodes(#[trigger] items@[i], v@[i]),
    }
}

fn string_field(j: &Json, key: &str) -> (r: Option<String>)
    ensures
        match r {
            Some(s) => string_member(*j, key@) == Some(s@),
            None => string_member(*j, key@) is None,
        },
{
    match j.get(key) {
        Some(Json::Str(s)) => Some(s.clone()),
        _ => None,
    }
}

fn decode_attributes(j: &Json) -> (r: Option<Vec<(String, String)>>)
    ensures
        match r {
            Some(a) => attributes_of(*j) == Some(pairs_view(a@)),
            None => attributes_of(*j) is None,
        },
{
    match j {
        Json::Object(ms) => {
            let n = ms.len();
            let mut out: Vec<(String, String)> = Vec::new();
            let mut i: usize = 0;
            while i < n
                invariant
                    *j is Object,
                    j->Object_0 == *ms,
                    n == ms@.len(),
                    i <= n,
                    out@.len() == i,
                    forall|k: int|
                        0 <= k < i ==> (#[trigger] ms@[k]).1 is Str && out@[k].0@ == ms@[k].0@
                            && out@[k].1@ == ms@[k].1->Str_0@,
                decreases n - i,
            {
                match &ms[i].1 {
                    Json::Str(v) => out.push((ms[i].0.clone(), v.clone())),
                    _ => return None,
                }
                i = i + 1;
            }
            assert(Seq::new(n as nat, |k: int| (ms@[k].0@, ms@[k].1->Str_0@)) =~= pairs_view(
                out@,
            ));
            Some(out)
        },
        _ => None,
    }
}

/// Whether `c` is an array whose elements are the JSON forms of `v`.
pub open spec fn places_decode(c: Json, v: Seq<Place>) -> bool {
    c matches Json::Array(items) && items@.len() == v.len() && forall|i: int|
        0 <= i < v.len() ==> place_decodes(#[trigger] items@[i], v[i])
}

pub(crate) fn decode_places(j: &Json, c: &Json) -> (r: Result<Vec<Place>, DecodeError>)
    requires
        decreases_to!(*j => *c),
    ensures
        match r {
            Ok(v) => c matches Json::Array(items) && items@.len() == v@.len() && forall|i: int|
                0 <= i < v@.len() ==> place_decodes(#[trigger] items@[i], v@[i]),
            Err(e) => e == DecodeError::MalformedPlace && forall|v: Seq<Place>|
                !#[trigger] places_decode(*c, v),
        },
    decreases j, 0nat,
{
    match c {
        Json::Array(items) => {
            let n = items.len();
            let mut out: Vec<Place> = Vec::new();
            let mut i: usize = 0;
            while i < n
                invariant
                    decreases_to!(*j => *c),
                    *c is Array,
                    c->Array_0 == *items,
                    n == items@.len(),
                    i <= n,
                    out@.len() == i,
                    forall|k: int| 0 <= k < i ==> place_decodes(#[trigger] items@[k], out@[k]),
                decreases n - i,
            {
                proof {
                    let its = c->Array_0;
                    assert(decreases_to!(*c => its));
                    assert(decreases_to!(its => its@));
                    assert(decreases_to!(its@ => its@[i as int]));
                }
                match Place::from_json(&items[i]) {
                    Ok(p) => out.push(p),
                    Err(_) => {
                        assert forall|v: Seq<Place>| !#[trigger] places_decode(*c, v) by {
                            if v.len() == n {
                                assert(!place_decodes(items@[i as int], v[i as int]));
                            }
                        }
                        return Err(DecodeError::MalformedPlace);
                    },
                }
                i = i + 1;
            }
            Ok(out)
        },
        _ => Err(DecodeError::MalformedPlace),
    }
}

impl Place {
    /// Decodes a place record. Members it does not name are ignored.
    pub fn from_json(j: &Json) -> (r: Result<Place, DecodeError>)
        ensures
            match r {
                Ok(p) => place_decodes(*j, p),
                Err(e) => e == DecodeError::MalformedPlace && forall|p: Place| !place_decodes(*j, p),
            },
        decreases j, 1nat,
    {
        let id = match string_field(j, "id") {
            Some(s) => s,
            None => return Err(DecodeError::MalformedPlace),
        };
        let country = match string_field(j, "country") {
            Some(s) => s,
            None => return Err(DecodeError::MalformedPlace),
        };
        let country_code = match string_field(j, "country_code") {
            Some(s) => s,
            None => return Err(DecodeError::MalformedPlace),
        };
        let full_name = match string_field(j, "full_name") {
            Some(s) => s,
            None => return Err(DecodeError::MalformedPlace),
        };
        let name = match string_field(j, "name") {
            Some(s) => s,
            None => return Err(DecodeError::MalformedPlace),
        };
        let attributes = match j.get("attributes") {
            Some(a) => match decode_attributes(a) {
                Some(v) => v,
                None => return Err(DecodeError::MalformedPlace),
            },
            None => return Err(DecodeError::MalformedPlace),
        };
        let bounding_box = match j.get("bounding_box") {
            Some(b) => match deserialize(b) {
                Ok(v) => v,
                Err(_) => return Err(DecodeError::MalformedPlace),
            },
            None => return Err(DecodeError::MalformedPlace),
        };
        let place_type = match j.get("place_type") {
            Some(t) => match PlaceType::from_json(t) {
                Ok(p) => p,
                Err(_) => return Err(DecodeError::MalformedPlace),
            },
            None => return Err(DecodeError::MalformedPlace),
        };
        let contained_within = match j.get("contained_within") {
            None => None,
            Some(Json::Null) => None,
            Some(c) => match decode_places(j, c) {
                Ok(v) => Some(v),
                Err(_) => {
                    assert forall|p: Place| !place_decodes(*j, p) by {
                        if p.contained_within is Some {
                            let v = p.contained_within->Some_0;
                            assert(!places_decode(*c, v@));
                        }
                    }
                    return Err(DecodeError::MalformedPlace);
                },
            },
        };
        let p = Place {
            id,
            attributes,
            bounding_box,
            country,
            country_code,
            full_name,
            name,
            place_type,
            contained_within,
        };
        assert(place_decodes(*j, p));
        Ok(p)
    }

}

/// A decoded place's outline is empty, a single point, or at least three
/// pairs, unless the ring the service sent held exactly two pairs, which
/// the decoder keeps as they are.
pub proof fn lemma_decoded_outline_shape(j: Json, p: Place)
    requires
        place_decodes(j, p),
        !(member(j, "bounding_box"@) matches Some(b) && (bounding_box_of(b) matches Some(ring)
            && ring.len() == 2)),
    ensures
        p.bounding_box@.len() <= 1 || p.bounding_box@.len() >= 3,
{
    assert(pairs_view(p.bounding_box@).len() == p.bounding_box@.len());
}

/// Whether `j` is the encoding of place `p`: an object with the members
/// `id`, `attributes`, `bounding_box`, `country`, `country_code`,
/// `full_name`, `name`, `place_type` and `contained_within`, in that order;
/// the outline as `box_encodes` writes it, and `null` for no containing places.
pub open spec fn place_encodes(p: Place, j: Json) -> bool
    decreases p,
{
    &&& j matches Json::Object(ms)
    &&& j->Object_0@.len() == 9
    &&& member_is(j, 0, "id"@, Json::Str(p.id))
    &&& j->Object_0@[1].0@ == "attributes"@
    &&& attributes_of(j->Object_0@[1].1) == Some(pairs_view(p.attributes@))
    &&& j->Object_0@[2].0@ == "bounding_box"@
    &&& box_encodes(pairs_view(p.bounding_box@), j->Object_0@[2].1)
    &&& member_is(j, 3, "country"@, Json::Str(p.country))
    &&& member_is(j, 4, "country_code"@, Json::Str(p.country_code))
    &&& member_is(j, 5, "full_name"@, Json::Str(p.full_name))
    &&& member_is(j, 6, "name"@, Json::Str(p.name))
    &&& j->Object_0@[7].0@ == "place_type"@
    &&& (j->Object_0@[7].1 matches Json::Str(t) && t@ == place_type_tag(p.place_type))
    &&& j->Object_0@[8].0@ == "contained_within"@
    &&& match p.contained_within {
        None => j->Object_0@[8].1 is Null,
        Some(v) => j->Object_0@[8].1 matches Json::Array(items) && items@.len() == v@.len()
            && forall|i: int| 0 <= i < v@.len() ==> place_encodes(v@[i], #[trigger] items@[i]),
    }
}

/// Whether member `i` of object `j` is named `key` and holds a string
/// equal to that of `value`.
pub open spec fn member_is(j: Json, i: int, key: Seq<char>, value: Json) -> bool {
    &&& j->Object_0@[i].0@ == key
    &&& j->Object_0@[i].1 matches Json::Str(s)
    &&& value matches Json::Str(v)
    &&& s@ == v@
}

fn string_json(s: &String) -> (r: Json)
    ensures
        r matches Json::Str(t) && t@ == s@,
{
    Json::Str(s.clone())
}

fn attributes_json(attrs: &Vec<(String, String)>) -> (r: Json)
    ensures
        attributes_of(r) == Some(pairs_view(attrs@)),
{
    let n = attrs.len();
    let mut ms: Vec<(String, Json)> = Vec::new();
    let mut i: usize = 0;
    while i < n
        invariant
            n == attrs@.len(),
            i <= n,
            ms@.len() == i,
            forall|k: int|
                0 <= k < i ==> (#[trigger] ms@[k]).1 is Str && ms@[k].0@ == attrs@[k].0@
                    && ms@[k].1->Str_0@ == attrs@[k].1@,
        decreases n - i,
    {
        ms.push((attrs[i].0.clone(), Json::Str(attrs[i].1.clone())));
        i = i + 1;
    }
    assert(Seq::new(n as nat, |k: int| (ms@[k].0@, ms@[k].1->Str_0@)) =~= pairs_view(attrs@));
    Json::Object(ms)
}

impl Place {
    /// Encodes a place record, its outline as `bounding_box::serialize`
    /// writes it.
    pub fn to_json(&self) -> (r: Json)
        ensures
            place_encodes(*self, r),
        decreases self,
    {
        let within = match &self.contained_within {
            None => Json::Null,
            Some(v) => {
                let n = v.len();
                let mut items: Vec<Json> = Vec::new();
                let mut i: usize = 0;
                while i < n
                    invariant
                        self.contained_within == Some(*v),
                        n == v@.len(),
                        i <= n,
                        items@.len() == i,
                        forall|k: int| 0 <= k < i ==> place_encodes(v@[k], #[trigger] items@[k]),
                    decreases n - i,
                {
                    proof {
                        let cw = self.contained_within;
                        let vv = cw->Some_0;
                        assert(decreases_to!(*self => cw));
                        assert(decreases_to!(cw => vv));
                        assert(decreases_to!(vv => vv@));
                        assert(decreases_to!(vv@ => vv@[i as int]));
                    }
                    items.push(v[i].to_json());
                    i = i + 1;
                }
                Json::Array(items)
            },
        };
        let mut ms: Vec<(String, Json)> = Vec::new();
        ms.push(("id".to_owned(), string_json(&self.id)));
        ms.push(("attributes".to_owned(), attributes_json(&self.attributes)));
        ms.push(("bounding_box".to_owned(), serialize(&self.bounding_box)));
        ms.push(("country".to_owned(), string_json(&self.country)));
        ms.push(("country_code".to_owned(), string_json(&self.country_code)));
        ms.push(("full_name".to_owned(), string_json(&self.full_name)));
        ms.push(("name".to_owned(), string_json(&self.name)));
        ms.push(("place_type".to_owned(), self.place_type.to_json()));
        ms.push(("contained_within".to_owned(), within));
        let r = Json::Object(ms);
        assert(place_encodes(*self, r));
        r
    }
}

} // verus!
