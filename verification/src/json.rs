//! A JSON document as plain values, and the lookups the picker makes in the
//! answers of Herdr and the GitHub CLI.
use vstd::prelude::*;

verus! {

/// A JSON value.
#[derive(Debug, PartialEq, Eq)]
pub enum Json {
    Null,
    Bool(bool),
    /// A number, with its value when it is a non-negative integer that fits
    /// in a `u64` (`None` for negative and fractional numbers).
    Number { unsigned: Option<u64> },
    Str(String),
    Array(Vec<Json>),
    /// The members of an object, in document order.
    Object(Vec<(String, Json)>),
}

/// The first member at or after `k` whose key is `key`.
pub open spec fn member_from(members: Seq<(String, Json)>, key: Seq<char>, k: int) -> Option<Json>
    decreases members.len() - k,
{
    if k < 0 || k >= members.len() {
        None
    } else if members[k].0@ == key {
        Some(members[k].1)
    } else {
        member_from(members, key, k + 1)
    }
}

/// The member `key` of an object (`None` for any other value).
pub open spec fn get_spec(j: Json, key: Seq<char>) -> Option<Json> {
    match j {
        Json::Object(members) => member_from(members@, key, 0),
        _ => None,
    }
}

/// The value found by following `path`, one object member per step.
pub open spec fn path_spec(j: Json, path: Seq<Seq<char>>) -> Option<Json>
    decreases path.len(),
{
    if path.len() == 0 {
        Some(j)
    } else {
        match path_spec(j, path.drop_last()) {
            Some(inner) => get_spec(inner, path.last()),
            None => None,
        }
    }
}

/// The text of a string value.
pub open spec fn str_spec(j: Option<Json>) -> Option<Seq<char>> {
    match j {
        Some(Json::Str(s)) => Some(s@),
        _ => None,
    }
}

/// The value of a boolean.
pub open spec fn bool_spec(j: Option<Json>) -> Option<bool> {
    match j {
        Some(Json::Bool(b)) => Some(b),
        _ => None,
    }
}

/// The value of a number that is a `u64`.
pub open spec fn u64_spec(j: Option<Json>) -> Option<u64> {
    match j {
        Some(Json::Number { unsigned }) => unsigned,
        _ => None,
    }
}

/// A value found by a lookup, as an owned value.
pub open spec fn found(r: Option<&Json>) -> Option<Json> {
    match r {
        Some(v) => Some(*v),
        None => None,
    }
}

impl Json {
    /// A string value.
    pub fn string(s: &str) -> (r: Json)
        ensures
            r matches Json::Str(t) && t@ == s@,
    {
        Json::Str(s.to_owned())
    }

    /// An object with the given members.
    pub fn object(members: Vec<(String, Json)>) -> (r: Json)
        ensures
            r == Json::Object(members),
    {
        Json::Object(members)
    }

    /// The member `key` of an object; `None` for any other value, or when
    /// the object has no such member.
    pub fn get(&self, key: &str) -> (r: Option<&Json>)
        ensures
            found(r) == get_spec(*self, key@),
    {
        match self {
            Json::Object(members) => {
                let mut k: usize = 0;
                while k < members.len()
                    invariant
                        k <= members@.len(),
                        get_spec(*self, key@) == member_from(members@, key@, 0),
                        member_from(members@, key@, 0) == member_from(members@, key@, k as int),
                    decreases members@.len() - k,
                {
                    if crate::text::same_str(members[k].0.as_str(), key) {
                        return Some(&members[k].1);
                    }
                    k += 1;
                }
                None
            },
            _ => None,
        }
    }

    /// The value found by following `path`, one object member per step (as a
    /// JSON pointer whose tokens are the keys).
    pub fn path(&self, path: &[&str]) -> (r: Option<&Json>)
        ensures
            found(r) == path_spec(*self, path@.map_values(|s: &str| s@)),
    {
        let ghost keys = path@.map_values(|s: &str| s@);
        let mut current: &Json = self;
        let mut k: usize = 0;
        assert(keys.take(0) =~= Seq::<Seq<char>>::empty());
        while k < path.len()
            invariant
                k <= path@.len(),
                keys == path@.map_values(|s: &str| s@),
                path_spec(*self, keys.take(k as int)) == Some(*current),
            decreases path@.len() - k,
        {
            assert(keys.take(k + 1).drop_last() =~= keys.take(k as int));
            assert(keys.take(k + 1).last() == path@[k as int]@);
            match current.get(path[k]) {
                Some(next) => current = next,
                None => {
                    proof {
                        lemma_path_stops(*self, keys, k as int + 1);
                    }
                    return None;
                },
            }
            k += 1;
        }
        assert(keys.take(path@.len() as int) =~= keys);
        Some(current)
    }

    /// The text of a string value.
    pub fn as_str(&self) -> (r: Option<&str>)
        ensures
            match r {
                Some(s) => str_spec(Some(*self)) == Some(s@),
                None => str_spec(Some(*self)) is None,
            },
    {
        match self {
            Json::Str(s) => Some(s.as_str()),
            _ => None,
        }
    }

    /// The value of a boolean.
    pub fn as_bool(&self) -> (r: Option<bool>)
        ensures
            r == bool_spec(Some(*self)),
    {
        match self {
            Json::Bool(b) => Some(*b),
            _ => None,
        }
    }

    /// The value of a number that is a `u64`.
    pub fn as_u64(&self) -> (r: Option<u64>)
        ensures
            r == u64_spec(Some(*self)),
    {
        match self {
            Json::Number { unsigned } => *unsigned,
            _ => None,
        }
    }

    /// The elements of an array.
    pub fn as_array(&self) -> (r: Option<&Vec<Json>>)
        ensures
            match r {
                Some(v) => *self == Json::Array(*v),
                None => !(*self is Array),
            },
    {
        match self {
            Json::Array(items) => Some(items),
            _ => None,
        }
    }
}

/// Once a step of a path finds nothing, the rest of the path finds nothing.
proof fn lemma_path_stops(j: Json, keys: Seq<Seq<char>>, k: int)
    requires
        0 < k <= keys.len(),
        path_spec(j, keys.take(k)) is None,
    ensures
        path_spec(j, keys) is None,
    decreases keys.len() - k,
{
    if k < keys.len() {
        assert(keys.take(k + 1).drop_last() =~= keys.take(k));
        lemma_path_stops(j, keys, k + 1);
    } else {
        assert(keys.take(k) =~= keys);
    }
}

/// The text of the string found by following `path`.
pub fn path_str(j: &Json, path: &[&str]) -> (r: Option<String>)
    ensures
        match r {
            Some(s) => str_spec(path_spec(*j, path@.map_values(|s: &str| s@))) == Some(s@),
            None => str_spec(path_spec(*j, path@.map_values(|s: &str| s@))) is None,
        },
{
    match j.path(path) {
        Some(v) => match v.as_str() {
            Some(s) => Some(s.to_owned()),
            None => None,
        },
        None => None,
    }
}

} // verus!
