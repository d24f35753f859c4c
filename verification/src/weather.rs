//! The pieces of a weather report reader: the arguments of the program and
//! the walk along a path through the tree of values that a report is.

use vstd::prelude::*;
use vstd::std_specs::convert::{FromSpecImpl, IntoSpec};
use crate::query::str_equal;

verus! {

/// The arguments of the program.
#[derive(Debug, Clone, PartialEq, Eq)]
pub struct Args {
    /// The name of a city or a region.
    pub city: Option<String>,
}

/// One step of a path through a tree of values.
#[derive(Debug, Clone, Copy, PartialEq, Eq)]
pub enum PathPart<'a> {
    /// Into an object, to the member with this name.
    Key(&'a str),
    /// Into an array, to the element at this place.
    Index(usize),
}

impl<'a> From<usize> for PathPart<'a> {
    fn from(value: usize) -> (part: Self) {
        Self::Index(value)
    }
}

impl<'a> FromSpecImpl<usize> for PathPart<'a> {
    open spec fn obeys_from_spec() -> bool {
        true
    }

    open spec fn from_spec(value: usize) -> Self {
        PathPart::Index(value)
    }
}

impl<'a> From<&'a str> for PathPart<'a> {
    fn from(value: &'a str) -> (part: Self) {
        Self::Key(value)
    }
}

impl<'a> FromSpecImpl<&'a str> for PathPart<'a> {
    open spec fn obeys_from_spec() -> bool {
        true
    }

    open spec fn from_spec(value: &'a str) -> Self {
        PathPart::Key(value)
    }
}

/// A tree of values, as a report comes in.
#[derive(Debug, PartialEq, Eq)]
pub enum Json {
    Null,
    Bool(bool),
    /// A number, as it was written.
    Number(String),
    String(String),
    Array(Vec<Json>),
    /// The members of an object, each name once.
    Object(Vec<(String, Json)>),
}

/// The member with the given name: the last one, should a name occur twice.
pub open spec fn member(members: Seq<(String, Json)>, name: Seq<char>) -> Option<Json>
    decreases members.len(),
{
    if members.len() == 0 {
        None
    } else if members.last().0@ == name {
        Some(members.last().1)
    } else {
        member(members.drop_last(), name)
    }
}

/// Where a step leads from a value: to the member of an object or to the
/// element of an array, and to `Null` wherever there is no such thing.
pub open spec fn child(json: Json, part: PathPart<'_>) -> Json {
    match (json, part) {
        (Json::Object(members), PathPart::Key(name)) => match member(members@, name@) {
            Some(value) => value,
            None => Json::Null,
        },
        (Json::Array(items), PathPart::Index(place)) => if place < items@.len() {
            items@[place as int]
        } else {
            Json::Null
        },
        _ => Json::Null,
    }
}

fn step<'a>(json: &'a Json, part: PathPart<'_>) -> (next: &'a Json)
    ensures
        *next == child(*json, part),
{
    match (json, part) {
        (Json::Object(members), PathPart::Key(name)) => {
            let mut k = members.len();
            assert(members@.take(k as int) =~= members@);
            while k > 0
                invariant
                    k <= members.len(),
                    child(*json, part) == (match member(members@, name@) {
                        Some(value) => value,
                        None => Json::Null,
                    }),
                    member(members@, name@) == member(members@.take(k as int), name@),
                decreases k,
            {
                assert(members@.take(k as int).drop_last() =~= members@.take(k - 1));
                assert(members@.take(k as int).last() == members@[k - 1]);
                if str_equal(members[k - 1].0.as_str(), name) {
                    return &members[k - 1].1;
                }
                k -= 1;
            }
            assert(members@.take(0).len() == 0);
            &Json::Null
        },
        (Json::Array(items), PathPart::Index(place)) => {
            if place < items.len() {
                &items[place]
            } else {
                &Json::Null
            }
        },
        _ => &Json::Null,
    }
}

/// A place in a tree of values.
#[derive(Debug, Clone, Copy)]
pub struct GetValue<'a> {
    current: &'a Json,
}

impl<'a> GetValue<'a> {
    /// The value at this place.
    pub closed spec fn current(&self) -> Json {
        *self.current
    }

    /// The root of a tree.
    pub fn new(root: &'a Json) -> (getter: Self)
        ensures
            getter.current() == *root,
    {
        Self { current: root }
    }

    /// The place that one step leads to.
    pub fn chain<K>(&self, key: K) -> (next: Self)
        where
            K: Into<PathPart<'a>>,
        ensures
            K::obeys_into_spec() ==> next.current() == child(self.current(), key.into_spec()),
    {
        let part: PathPart<'a> = key.into();
        Self { current: step(self.current, part) }
    }

    /// The text at this place; `"None"` where the value is no text.
    pub fn to_str(&self) -> (text: &'a str)
        ensures
            text@ == (match self.current() {
                Json::String(s) => s@,
                _ => "None"@,
            }),
    {
        match self.current {
            Json::String(s) => s.as_str(),
            _ => "None",
        }
    }
}

/// A step into a value that is neither an object nor an array leads to
/// `Null`, and so does every step from there.
pub proof fn lemma_missing_stays_missing(part: PathPart<'_>)
    ensures
        child(Json::Null, part) == Json::Null,
{
}

} // verus!
