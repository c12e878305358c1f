//! A JSON document model that the library reads tool arguments and results
//! from.
use vstd::prelude::*;
use crate::text::str_eq;

verus! {

/// A JSON number, kept as the integer it denotes or, for a fraction, as its
/// decimal text.
pub enum JsonNumber {
    PosInt(u64),
    NegInt(i64),
    Float(String),
}

/// A JSON document tree. An object keeps its members in document order.
pub enum JsonValue {
    Null,
    Bool(bool),
    Number(JsonNumber),
    String(String),
    Array(Vec<JsonValue>),
    Object(Vec<(String, JsonValue)>),
}

/// The mathematical value of a JSON number.
pub enum NumberModel {
    PosInt(nat),
    NegInt(int),
    Float(Seq<char>),
}

/// The mathematical value of a JSON tree.
pub enum JsonModel {
    Null,
    Bool(bool),
    Number(NumberModel),
    String(Seq<char>),
    Array(Seq<JsonModel>),
    Object(Seq<(Seq<char>, JsonModel)>),
}

impl View for JsonNumber {
    type V = NumberModel;

    open spec fn view(&self) -> NumberModel {
        match self {
            JsonNumber::PosInt(n) => NumberModel::PosInt(*n as nat),
            JsonNumber::NegInt(n) => NumberModel::NegInt(*n as int),
            JsonNumber::Float(s) => NumberModel::Float(s@),
        }
    }
}

/// The model of a JSON tree.
pub open spec fn json_model(v: &JsonValue) -> JsonModel
    decreases v,
{
    match v {
        JsonValue::Null => JsonModel::Null,
        JsonValue::Bool(b) => JsonModel::Bool(*b),
        JsonValue::Number(n) => JsonModel::Number(n@),
        JsonValue::String(s) => JsonModel::String(s@),
        JsonValue::Array(items) => JsonModel::Array(
            Seq::new(
                items.len() as nat,
                |i: int|
                    if 0 <= i < items.len() {
                        json_model(&items[i])
                    } else {
                        JsonModel::Null
                    },
            ),
        ),
        JsonValue::Object(members) => JsonModel::Object(
            Seq::new(
                members.len() as nat,
                |i: int|
                    if 0 <= i < members.len() {
                        (members[i].0@, json_model(&members[i].1))
                    } else {
                        (Seq::empty(), JsonModel::Null)
                    },
            ),
        ),
    }
}

impl View for JsonValue {
    type V = JsonModel;

    open spec fn view(&self) -> JsonModel {
        json_model(self)
    }
}

/// The value of the first member of `members` named `key`.
pub open spec fn member_of(members: Seq<(Seq<char>, JsonModel)>, key: Seq<char>) -> Option<
    JsonModel,
>
    decreases members.len(),
{
    if members.len() == 0 {
        None
    } else if members[0].0 == key {
        Some(members[0].1)
    } else {
        member_of(members.drop_first(), key)
    }
}

/// The member `key` of `v`, where `v` is an object that has one.
pub open spec fn member(v: JsonModel, key: Seq<char>) -> Option<JsonModel> {
    match v {
        JsonModel::Object(members) => member_of(members, key),
        _ => None,
    }
}

/// The text of `v`, where `v` is a string.
pub open spec fn string_of(v: Option<JsonModel>) -> Option<Seq<char>> {
    match v {
        Some(JsonModel::String(s)) => Some(s),
        _ => None,
    }
}

impl JsonNumber {
    pub fn duplicate(&self) -> (r: JsonNumber)
        ensures
            r@ == self@,
    {
        match self {
            JsonNumber::PosInt(n) => JsonNumber::PosInt(*n),
            JsonNumber::NegInt(n) => JsonNumber::NegInt(*n),
            JsonNumber::Float(s) => JsonNumber::Float(s.clone()),
        }
    }

    pub fn same(&self, other: &JsonNumber) -> (r: bool)
        ensures
            r == (self@ == other@),
    {
        match (self, other) {
            (JsonNumber::PosInt(a), JsonNumber::PosInt(b)) => *a == *b,
            (JsonNumber::NegInt(a), JsonNumber::NegInt(b)) => *a == *b,
            (JsonNumber::Float(a), JsonNumber::Float(b)) => *a == *b,
            _ => false,
        }
    }
}

impl JsonValue {
    /// A copy of this tree.
    #[verifier::loop_isolation(false)]
    pub fn duplicate(&self) -> (r: JsonValue)
        ensures
            r@ == self@,
        decreases self,
    {
        match self {
            JsonValue::Null => JsonValue::Null,
            JsonValue::Bool(b) => JsonValue::Bool(*b),
            JsonValue::Number(n) => JsonValue::Number(n.duplicate()),
            JsonValue::String(s) => JsonValue::String(s.clone()),
            JsonValue::Array(items) => {
                let mut r: Vec<JsonValue> = Vec::new();
                let mut i: usize = 0;
                while i < items.len()
                    invariant
                        i <= items.len(),
                        r.len() == i,
                        forall|k: int| 0 <= k < i ==> (#[trigger] r[k])@ == items[k]@,
                    decreases items.len() - i,
                {
                    r.push(items[i].duplicate());
                    i = i + 1;
                }
                let ghost rv = JsonValue::Array(r);
                assert(rv@ == self@) by {
                    if let JsonModel::Array(x) = rv@ {
                        if let JsonModel::Array(y) = self@ {
                            assert(x =~= y);
                        }
                    }
                }
                JsonValue::Array(r)
            },
            JsonValue::Object(members) => {
                let mut r: Vec<(String, JsonValue)> = Vec::new();
                let mut i: usize = 0;
                while i < members.len()
                    invariant
                        i <= members.len(),
                        r.len() == i,
                        forall|k: int|
                            0 <= k < i ==> (#[trigger] r[k]).0@ == members[k].0@ && r[k].1@
                                == members[k].1@,
                    decreases members.len() - i,
                {
                    r.push((members[i].0.clone(), members[i].1.duplicate()));
                    i = i + 1;
                }
                let ghost rv = JsonValue::Object(r);
                assert(rv@ == self@) by {
                    if let JsonModel::Object(x) = rv@ {
                        if let JsonModel::Object(y) = self@ {
                            assert(x =~= y);
                        }
                    }
                }
                JsonValue::Object(r)
            },
        }
    }

    /// Whether two trees are equal.
    #[verifier::loop_isolation(false)]
    pub fn same(&self, other: &JsonValue) -> (r: bool)
        ensures
            r == (self@ == other@),
        decreases self,
    {
        match (self, other) {
            (JsonValue::Null, JsonValue::Null) => true,
            (JsonValue::Bool(a), JsonValue::Bool(b)) => *a == *b,
            (JsonValue::Number(a), JsonValue::Number(b)) => a.same(b),
            (JsonValue::String(a), JsonValue::String(b)) => *a == *b,
            (JsonValue::Array(a), JsonValue::Array(b)) => {
                if a.len() != b.len() {
                    proof {
                        if let (JsonModel::Array(x), JsonModel::Array(y)) = (self@, other@) {
                            assert(x.len() != y.len());
                        }
                    }
                    return false;
                }
                let mut i: usize = 0;
                while i < a.len()
                    invariant
                        a.len() == b.len(),
                        i <= a.len(),
                        forall|k: int| 0 <= k < i ==> (#[trigger] a[k])@ == b[k]@,
                    decreases a.len() - i,
                {
                    if !a[i].same(&b[i]) {
                        proof {
                            if let (JsonModel::Array(x), JsonModel::Array(y)) = (self@, other@) {
                                assert(x[i as int] != y[i as int]);
                            }
                        }
                        return false;
                    }
                    i = i + 1;
                }
                proof {
                    if let (JsonModel::Array(x), JsonModel::Array(y)) = (self@, other@) {
                        assert(x =~= y);
                    }
                }
                true
            },
            (JsonValue::Object(a), JsonValue::Object(b)) => {
                if a.len() != b.len() {
                    proof {
                        if let (JsonModel::Object(x), JsonModel::Object(y)) = (self@, other@) {
                            assert(x.len() != y.len());
                        }
                    }
                    return false;
                }
                let mut i: usize = 0;
                while i < a.len()
                    invariant
                        a.len() == b.len(),
                        i <= a.len(),
                        forall|k: int|
                            0 <= k < i ==> (#[trigger] a[k]).0@ == b[k].0@ && a[k].1@ == b[k].1@,
                    decreases a.len() - i,
                {
                    if a[i].0 != b[i].0 || !a[i].1.same(&b[i].1) {
                        proof {
                            if let (JsonModel::Object(x), JsonModel::Object(y)) = (self@, other@) {
                                assert(x[i as int] != y[i as int]);
                            }
                        }
                        return false;
                    }
                    i = i + 1;
                }
                proof {
                    if let (JsonModel::Object(x), JsonModel::Object(y)) = (self@, other@) {
                        assert(x =~= y);
                    }
                }
                true
            },
            _ => false,
        }
    }

    /// The member `key` of this value, where it is an object that has one.
    #[verifier::loop_isolation(false)]
    pub fn get(&self, key: &str) -> (r: Option<&JsonValue>)
        ensures
            r matches Some(v) ==> member(self@, key@) == Some(v@),
            r is None ==> member(self@, key@) is None,
    {
        match self {
            JsonValue::Object(members) => {
                let ghost ms = match self@ {
                    JsonModel::Object(x) => x,
                    _ => Seq::empty(),
                };
                assert(ms.subrange(0, ms.len() as int) =~= ms);
                let mut i: usize = 0;
                while i < members.len()
                    invariant
                        i <= members.len(),
                        ms.len() == members.len(),
                        forall|k: int|
                            0 <= k < members.len() ==> #[trigger] ms[k] == (
                                members[k].0@,
                                members[k].1@,
                            ),
                        member_of(ms, key@) == member_of(ms.subrange(i as int, ms.len() as int), key@),
                    decreases members.len() - i,
                {
                    assert(ms.subrange(i as int, ms.len() as int).drop_first() =~= ms.subrange(
                        i + 1,
                        ms.len() as int,
                    ));
                    if str_eq(members[i].0.as_str(), key) {
                        return Some(&members[i].1);
                    }
                    i = i + 1;
                }
                None
            },
            _ => None,
        }
    }

    /// The text of this value, where it is a string.
    pub fn as_str(&self) -> (r: Option<&String>)
        ensures
            r matches Some(s) ==> self@ == JsonModel::String(s@),
            r is None ==> !(self@ is String),
    {
        match self {
            JsonValue::String(s) => Some(s),
            _ => None,
        }
    }
}

} // verus!
