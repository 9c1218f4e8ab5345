//! A JSON document as the decoders of this library read it.

use vstd::prelude::*;
use crate::text::same_text;

verus! {

broadcast use vstd::std_specs::vec::group_vec_axioms;

/// A JSON value. A number keeps the text it was written with; an object
/// keeps its members in order, and a lookup finds the first of a name.
#[derive(Debug)]
pub enum Json {
    Null,
    Bool(bool),
    Number(String),
    Str(String),
    Array(Vec<Json>),
    Object(Vec<(String, Json)>),
}

/// The value of the first member named `key`.
pub open spec fn lookup(members: Seq<(String, Json)>, key: Seq<char>) -> Option<Json>
    decreases members.len(),
{
    if members.len() == 0 {
        None
    } else if members[0].0@ == key {
        Some(members[0].1)
    } else {
        lookup(members.drop_first(), key)
    }
}

/// The member `key` of an object; nothing for any other value.
pub open spec fn member(j: Json, key: Seq<char>) -> Option<Json> {
    match j {
        Json::Object(members) => lookup(members@, key),
        _ => None,
    }
}

/// The element at `index` of an array; nothing for any other value.
pub open spec fn element(j: Json, index: int) -> Option<Json> {
    match j {
        Json::Array(items) => if 0 <= index < items@.len() {
            Some(items@[index])
        } else {
            None
        },
        _ => None,
    }
}

impl Json {
    /// The member `key` of an object, or `None` where the value is no
    /// object or has no such member.
    pub fn get(&self, key: &str) -> (r: Option<&Json>)
        ensures
            match r {
                Some(v) => member(*self, key@) == Some(*v) && decreases_to!(*self => *v),
                None => member(*self, key@) is None,
            },
    {
        match self {
            Json::Object(members) => {
                let n = members.len();
                let mut i: usize = 0;
                assert(members@.subrange(0, n as int) == members@);
                while i < n
                    invariant
                        *self is Object,
                        self->Object_0 == *members,
                        n == members@.len(),
                        i <= n,
                        lookup(members@, key@) == lookup(members@.subrange(i as int, n as int), key@),
                    decreases n - i,
                {
                    assert(members@.subrange(i as int, n as int).drop_first() == members@.subrange(
                        i + 1,
                        n as int,
                    ));
                    if same_text(members[i].0.as_str(), key) {
                        proof {
                            let ms = self->Object_0;
                            let m = ms@[i as int];
                            assert(decreases_to!(*self => ms));
                            assert(decreases_to!(ms => ms@));
                            assert(decreases_to!(ms@ => m));
                            assert(decreases_to!(m => m.1));
                        }
                        return Some(&members[i].1);
                    }
                    i = i + 1;
                }
                None
            },
            _ => None,
        }
    }

    /// The element at `index` of an array, or `None` where the value is no
    /// array or too short.
    pub fn at(&self, index: usize) -> (r: Option<&Json>)
        ensures
            match r {
                Some(v) => element(*self, index as int) == Some(*v) && decreases_to!(*self => *v),
                None => element(*self, index as int) is None,
            },
    {
        match self {
            Json::Array(items) => {
                if index < items.len() {
                    proof {
                        let its = self->Array_0;
                        assert(decreases_to!(*self => its));
                        assert(decreases_to!(its => its@));
                        assert(decreases_to!(its@ => its@[index as int]));
                    }
                    Some(&items[index])
                } else {
                    None
                }
            },
            _ => None,
        }
    }
}

} // verus!
