//! JSON values as plain data, with the lookups the library makes on them.

use vstd::prelude::*;
use crate::text::str_eq;

verus! {

/// A JSON document. Numbers keep their textual form; an object keeps its
/// members in order.
#[derive(Debug)]
pub enum JsonValue {
    /// `null`.
    Null,
    /// `true` or `false`.
    Bool(bool),
    /// A number, as written.
    Number(String),
    /// A string.
    Str(String),
    /// An array.
    Array(Vec<JsonValue>),
    /// An object: member names with their values.
    Object(Vec<(String, JsonValue)>),
}

/// The mathematical form of a JSON document.
pub enum Json {
    Null,
    Bool(bool),
    Number(Seq<char>),
    Str(Seq<char>),
    Array(Seq<Json>),
    Object(Seq<(Seq<char>, Json)>),
}

impl JsonValue {
    /// The document this value holds.
    pub open spec fn model(&self) -> Json
        decreases self,
    {
        match self {
            JsonValue::Null => Json::Null,
            JsonValue::Bool(b) => Json::Bool(*b),
            JsonValue::Number(n) => Json::Number(n@),
            JsonValue::Str(s) => Json::Str(s@),
            JsonValue::Array(items) => Json::Array(
                Seq::new(
                    items@.len(),
                    |i: int|
                        if 0 <= i < items@.len() {
                            proof {
                                assert(decreases_to!(*items => items@));
                                assert(decreases_to!(items@ => items@[i]));
                            }
                            items@[i].model()
                        } else {
                            Json::Null
                        },
                ),
            ),
            JsonValue::Object(members) => Json::Object(
                Seq::new(
                    members@.len(),
                    |i: int|
                        if 0 <= i < members@.len() {
                            proof {
                                assert(decreases_to!(*members => members@));
                                assert(decreases_to!(members@ => members@[i]));
                                assert(decreases_to!(members@[i] => members@[i].1));
                            }
                            (members@[i].0@, members@[i].1.model())
                        } else {
                            (Seq::empty(), Json::Null)
                        },
                ),
            ),
        }
    }
}


/// The value of the first member named `key`.
pub open spec fn member(members: Seq<(Seq<char>, Json)>, key: Seq<char>) -> Option<Json>
    decreases members.len(),
{
    if members.len() == 0 {
        None
    } else if members[0].0 == key {
        Some(members[0].1)
    } else {
        member(members.drop_first(), key)
    }
}

/// `j[key]` when `j` is an object with that member, as `Value::get` with a name.
pub open spec fn json_get(j: Json, key: Seq<char>) -> Option<Json> {
    match j {
        Json::Object(members) => member(members, key),
        _ => None,
    }
}

/// The text of a JSON string, as `Value::as_str`.
pub open spec fn json_as_str(j: Option<Json>) -> Option<Seq<char>> {
    match j {
        Some(Json::Str(s)) => Some(s),
        _ => None,
    }
}

/// The document `serde_json` reads from `text`, if `text` is valid JSON.
pub uninterp spec fn parsed_json(text: Seq<char>) -> Option<Json>;

#[verifier::external_type_specification]
#[verifier::external_body]
pub struct ExSerdeJsonValue(serde_json::Value);

/// Parses `text` with `serde_json::from_str::<serde_json::Value>`; the result
/// is the named function `parsed_json` of the text.
#[verifier::external_body]
pub(crate) fn parse_json(text: &str) -> (r: Option<JsonValue>)
    ensures
        match r {
            Some(v) => parsed_json(text@) == Some(v.model()),
            None => parsed_json(text@) is None,
        },
{
    serde_json::from_str::<serde_json::Value>(text).ok().map(from_serde)
}

/// Moves a `serde_json::Value` into a [`JsonValue`], variant by variant.
#[verifier::external_body]
fn from_serde(v: serde_json::Value) -> JsonValue {
    match v {
        serde_json::Value::Null => JsonValue::Null,
        serde_json::Value::Bool(b) => JsonValue::Bool(b),
        serde_json::Value::Number(n) => JsonValue::Number(n.to_string()),
        serde_json::Value::String(s) => JsonValue::Str(s),
        serde_json::Value::Array(items) => JsonValue::Array(items.into_iter().map(from_serde).collect()),
        serde_json::Value::Object(map) => JsonValue::Object(map.into_iter().map(|(k, v)| (k, from_serde(v))).collect()),
    }
}

impl JsonValue {
    /// The member named `key` when this is an object.
    pub fn get(&self, key: &str) -> (r: Option<&JsonValue>)
        ensures
            match r {
                Some(v) => json_get(self.model(), key@) == Some(v.model()),
                None => json_get(self.model(), key@) is None,
            },
    {
        match self {
            JsonValue::Object(members) => {
                let ghost ms = match self.model() {
                    Json::Object(m) => m,
                    _ => Seq::empty(),
                };
                let n = members.len();
                assert(self.model() is Object);
                assert(json_get(self.model(), key@) == member(ms, key@));
                assert(ms.len() == n);
                assert forall|k: int| 0 <= k < n implies #[trigger] ms[k] == (members@[k].0@, members@[k].1.model()) by {}
                let mut i: usize = 0;
                assert(ms.subrange(0, n as int) =~= ms);
                while i < n
                    invariant
                        i <= n,
                        n == members@.len(),
                        ms.len() == n,
                        forall|k: int| 0 <= k < n ==> #[trigger] ms[k] == (members@[k].0@, members@[k].1.model()),
                        member(ms, key@) == member(ms.subrange(i as int, n as int), key@),
                        json_get(self.model(), key@) == member(ms, key@),
                    decreases n - i,
                {
                    let ghost rest = ms.subrange(i as int, n as int);
                    assert(rest[0] == ms[i as int]);
                    if str_eq(members[i].0.as_str(), key) {
                        assert(ms[i as int] == (members@[i as int].0@, members@[i as int].1.model()));
                        assert(member(rest, key@) == Some(members@[i as int].1.model()));
                        return Some(&members[i].1);
                    }
                    assert(rest.drop_first() =~= ms.subrange(i + 1, n as int));
                    i = i + 1;
                }
                None
            },
            _ => None,
        }
    }

    /// The text of this value when it is a JSON string.
    pub fn as_str(&self) -> (r: Option<&str>)
        ensures
            match r {
                Some(s) => json_as_str(Some(self.model())) == Some(s@),
                None => json_as_str(Some(self.model())) is None,
            },
    {
        match self {
            JsonValue::Str(s) => Some(s.as_str()),
            _ => None,
        }
    }
}

} // verus!
