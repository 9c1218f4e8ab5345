//! The bounding box of a place on the wire: a GeoJSON-like object whose
//! `coordinates` is an array of rings, of which only the first is read.
//! Encoding writes the pairs without the enclosing ring.

use vstd::prelude::*;
use crate::json::{Json, member, element};
use crate::place::{DecodeError, pairs_view};

verus! {

broadcast use vstd::std_specs::vec::group_vec_axioms;

/// The JSON form of a coordinate pair: an array of exactly two numbers.
pub open spec fn pair_of(j: Json) -> Option<(Seq<char>, Seq<char>)> {
    match j {
        Json::Array(v) => if v@.len() == 2 && v@[0] is Number && v@[1] is Number {
            Some((v@[0]->Number_0@, v@[1]->Number_0@))
        } else {
            None
        },
        _ => None,
    }
}

/// The coordinate pairs of an array of pairs.
pub open spec fn ring_of(j: Json) -> Option<Seq<(Seq<char>, Seq<char>)>> {
    match j {
        Json::Array(v) => if forall|i: int| 0 <= i < v@.len() ==> (#[trigger] pair_of(v@[i])) is Some {
            Some(Seq::new(v@.len(), |i: int| pair_of(v@[i])->Some_0))
        } else {
            None
        },
        _ => None,
    }
}

/// What a bounding box field decodes to: nothing for `null`, else the first
/// ring of the member `coordinates`.
pub open spec fn bounding_box_of(j: Json) -> Option<Seq<(Seq<char>, Seq<char>)>> {
    if j is Null {
        Some(Seq::empty())
    } else {
        match member(j, "coordinates"@) {
            Some(c) => match element(c, 0) {
                Some(ring) => ring_of(ring),
                None => None,
            },
            None => None,
        }
    }
}

fn decode_pair(j: &Json) -> (r: Option<(String, String)>)
    ensures
        match r {
            Some(p) => pair_of(*j) == Some((p.0@, p.1@)),
            None => pair_of(*j) is None,
        },
{
    match j {
        Json::Array(v) => {
            if v.len() != 2 {
                return None;
            }
            match (&v[0], &v[1]) {
                (Json::Number(a), Json::Number(b)) => Some((a.clone(), b.clone())),
                _ => None,
            }
        },
        _ => None,
    }
}

fn decode_ring(j: &Json) -> (r: Option<Vec<(String, String)>>)
    ensures
        match r {
            Some(b) => ring_of(*j) == Some(pairs_view(b@)),
            None => ring_of(*j) is None,
        },
{
    match j {
        Json::Array(items) => {
            let n = items.len();
            let mut out: Vec<(String, String)> = Vec::new();
            let mut i: usize = 0;
            while i < n
                invariant
                    *j is Array,
                    j->Array_0 == *items,
                    n == items@.len(),
                    i <= n,
                    out@.len() == i,
                    forall|k: int| 0 <= k < i ==> pair_of(items@[k]) == Some(
                        (#[trigger] out@[k].0@, out@[k].1@),
                    ),
                decreases n - i,
            {
                match decode_pair(&items[i]) {
                    Some(p) => out.push(p),
                    None => {
                        assert(pair_of(items@[i as int]) is None);
                        return None;
                    },
                }
                i = i + 1;
            }
            assert(ring_of(*j) == Some(pairs_view(out@))) by {
                assert forall|k: int| 0 <= k < n implies (#[trigger] pair_of(items@[k])) is Some by {
                    assert(pair_of(items@[k]) == Some((out@[k].0@, out@[k].1@)));
                }
                assert(Seq::new(n as nat, |k: int| pair_of(items@[k])->Some_0) =~= pairs_view(out@));
            }
            Some(out)
        },
        _ => None,
    }
}

/// Decodes a bounding box field: `null` is the empty outline; otherwise the
/// first ring of `coordinates`, each element an array of two numbers.
pub fn deserialize(j: &Json) -> (r: Result<Vec<(String, String)>, DecodeError>)
    ensures
        match r {
            Ok(b) => bounding_box_of(*j) == Some(pairs_view(b@)),
            Err(e) => bounding_box_of(*j) is None && e == DecodeError::MalformedBoundingBox,
        },
{
    if let Json::Null = j {
        assert(pairs_view(Seq::<(String, String)>::empty()) =~= Seq::empty());
        return Ok(Vec::new());
    }
    match j.get("coordinates") {
        Some(c) => match c.at(0) {
            Some(ring) => match decode_ring(ring) {
                Some(b) => Ok(b),
                None => Err(DecodeError::MalformedBoundingBox),
            },
            None => Err(DecodeError::MalformedBoundingBox),
        },
        None => Err(DecodeError::MalformedBoundingBox),
    }
}

/// The `type` tag of a non-empty bounding box of `n` pairs.
pub open spec fn box_type_name(n: nat) -> Seq<char> {
    if n == 1 {
        seq!['P', 'o', 'i', 'n', 't']
    } else {
        seq!['P', 'o', 'l', 'y', 'g', 'o', 'n']
    }
}

/// Whether `j` is the encoding of the outline `b`: `null` when empty, else
/// `{"coordinates": [pairs...], "type": "Point" | "Polygon"}`.
pub open spec fn box_encodes(b: Seq<(Seq<char>, Seq<char>)>, j: Json) -> bool {
    &&& b.len() == 0 ==> j is Null
    &&& b.len() > 0 ==> (j matches Json::Object(ms) && ms@.len() == 2 && ms@[0].0@ == "coordinates"@
        && ring_of(ms@[0].1) == Some(b) && ms@[1].0@ == "type"@ && (ms@[1].1 matches Json::Str(t)
        && t@ == box_type_name(b.len())))
}

/// Encodes a bounding box: `null` when empty, else an object whose member
/// `coordinates` is the array of pairs itself (no enclosing ring) and whose
/// member `type` is `Point` for one pair and `Polygon` for more.
pub fn serialize(b: &Vec<(String, String)>) -> (r: Json)
    ensures
        box_encodes(pairs_view(b@), r),
{
    let n = b.len();
    if n == 0 {
        assert(pairs_view(b@).len() == 0);
        return Json::Null;
    }
    let mut items: Vec<Json> = Vec::new();
    let mut i: usize = 0;
    while i < n
        invariant
            n == b@.len(),
            i <= n,
            items@.len() == i,
            forall|k: int| 0 <= k < i ==> pair_of(#[trigger] items@[k]) == Some(
                (b@[k].0@, b@[k].1@),
            ),
        decreases n - i,
    {
        let mut pair: Vec<Json> = Vec::new();
        pair.push(Json::Number(b[i].0.clone()));
        pair.push(Json::Number(b[i].1.clone()));
        let item = Json::Array(pair);
        assert(pair_of(item) == Some((b@[i as int].0@, b@[i as int].1@)));
        items.push(item);
        i = i + 1;
    }
    let coords = Json::Array(items);
    assert(ring_of(coords) == Some(pairs_view(b@))) by {
        assert forall|k: int| 0 <= k < n implies (#[trigger] pair_of(items@[k])) is Some by {
            assert(pair_of(items@[k]) == Some((b@[k].0@, b@[k].1@)));
        }
        assert(Seq::new(n as nat, |k: int| pair_of(items@[k])->Some_0) =~= pairs_view(b@));
    }
    proof {
        reveal_strlit("Point");
        reveal_strlit("Polygon");
    }
    let kind = if n == 1 {
        "Point"
    } else {
        "Polygon"
    };
    let mut members: Vec<(String, Json)> = Vec::new();
    members.push(("coordinates".to_owned(), coords));
    members.push(("type".to_owned(), Json::Str(kind.to_owned())));
    let r = Json::Object(members);
    assert(members@[0].0@ == "coordinates"@);
    assert(ring_of(members@[0].1) == Some(pairs_view(b@)));
    assert(members@[1].1 matches Json::Str(t) && t@ == box_type_name(pairs_view(b@).len()));
    r
}

} // verus!
