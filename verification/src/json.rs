//! A plain model of JSON values: what the library reads from, and builds
//! for, the Dashboard API. Numbers keep their decimal text.

use vstd::prelude::*;

use crate::text::str_eq;

verus! {

/// A JSON value. Object members keep their order; `Number` holds the
/// number's JSON text.
#[derive(Debug, PartialEq)]
pub enum JsonValue {
    Null,
    Bool(bool),
    Number(String),
    Str(String),
    Array(Vec<JsonValue>),
    Object(Vec<(String, JsonValue)>),
}

/// The index of the first member of `members` named `key`, if any.
pub open spec fn member_index(members: Seq<(String, JsonValue)>, key: Seq<char>) -> Option<int> {
    if exists|i: int| 0 <= i < members.len() && (#[trigger] members[i]).0@ == key {
        let i = choose|i: int|
            0 <= i < members.len() && (#[trigger] members[i]).0@ == key && forall|k: int|
                0 <= k < i ==> (#[trigger] members[k]).0@ != key;
        Some(i)
    } else {
        None
    }
}

/// The value of the member named `key` of an object (the first one, when a
/// name repeats); `None` for a missing member or a value that is not an
/// object (`serde_json::Value::get` with a string index).
pub open spec fn member(v: JsonValue, key: Seq<char>) -> Option<JsonValue> {
    match v {
        JsonValue::Object(members) => match member_index(members@, key) {
            Some(i) => Some(members@[i].1),
            None => None,
        },
        _ => None,
    }
}

/// The text of a string value (`serde_json::Value::as_str`).
pub open spec fn string_of(v: JsonValue) -> Option<Seq<char>> {
    match v {
        JsonValue::Str(s) => Some(s@),
        _ => None,
    }
}

impl JsonValue {
    /// The value of the member named `key` of an object.
    pub fn get(&self, key: &str) -> (r: Option<&JsonValue>)
        ensures
            match r {
                Some(v) => member(*self, key@) == Some(*v),
                None => member(*self, key@).is_none(),
            },
    {
        match self {
            JsonValue::Object(members) => {
                let mut i: usize = 0;
                while i < members.len()
                    invariant
                        0 <= i <= members@.len(),
                        *self === JsonValue::Object(*members),
                        forall|k: int| 0 <= k < i ==> (#[trigger] members@[k]).0@ != key@,
                    decreases members@.len() - i,
                {
                    if str_eq(members[i].0.as_str(), key) {
                        proof {
                            assert(members@[i as int].0@ == key@);
                            assert(exists|j: int| 0 <= j < members@.len() && (#[trigger] members@[j]).0@ == key@);
                            let j = choose|j: int|
                                0 <= j < members@.len() && (#[trigger] members@[j]).0@ == key@
                                    && forall|k: int| 0 <= k < j ==> (#[trigger] members@[k]).0@ != key@;
                            if j < i {
                            } else if j > i {
                                assert(members@[i as int].0@ == key@);
                            }
                            assert(j == i);
                            assert(member_index(members@, key@) == Some(i as int));
                            assert(member(*self, key@) == Some(members@[i as int].1));
                        }
                        return Some(&members[i].1);
                    }
                    i = i + 1;
                }
                None
            },
            _ => None,
        }
    }

    /// The text of a string value.
    pub fn as_str(&self) -> (r: Option<&str>)
        ensures
            match r {
                Some(s) => string_of(*self) == Some(s@),
                None => string_of(*self).is_none(),
            },
    {
        match self {
            JsonValue::Str(s) => Some(s.as_str()),
            _ => None,
        }
    }
}

/// The contents of a JSON value, with sequences in place of vectors.
pub enum JsonModel {
    Null,
    Bool(bool),
    Number(Seq<char>),
    Str(Seq<char>),
    Array(Seq<JsonModel>),
    Object(Seq<(Seq<char>, JsonModel)>),
}

/// The contents of a JSON value.
pub open spec fn model(j: JsonValue) -> JsonModel
    decreases j,
{
    match j {
        JsonValue::Null => JsonModel::Null,
        JsonValue::Bool(b) => JsonModel::Bool(b),
        JsonValue::Number(n) => JsonModel::Number(n@),
        JsonValue::Str(s) => JsonModel::Str(s@),
        JsonValue::Array(v) => JsonModel::Array(elements_model(v@)),
        JsonValue::Object(m) => JsonModel::Object(members_model(m@)),
    }
}

/// The contents of array elements.
pub open spec fn elements_model(v: Seq<JsonValue>) -> Seq<JsonModel>
    decreases v,
{
    if v.len() == 0 {
        Seq::empty()
    } else {
        elements_model(v.subrange(0, v.len() - 1)).push(model(v[v.len() - 1]))
    }
}

/// The contents of object members.
pub open spec fn members_model(m: Seq<(String, JsonValue)>) -> Seq<(Seq<char>, JsonModel)>
    decreases m,
{
    if m.len() == 0 {
        Seq::empty()
    } else {
        members_model(m.subrange(0, m.len() - 1)).push(
            (m[m.len() - 1].0@, model(m[m.len() - 1].1)),
        )
    }
}

/// Appends a member to an object under construction.
pub fn push_member(members: &mut Vec<(String, JsonValue)>, key: &str, value: JsonValue)
    ensures
        members_model(final(members)@) == members_model(old(members)@).push((key@, model(value))),
{
    members.push((key.to_owned(), value));
    assert(final(members)@.subrange(0, final(members)@.len() - 1) =~= old(members)@);
    assert(members_model(final(members)@) =~= members_model(old(members)@).push(
        (key@, model(value)),
    ));
}

/// A string value.
pub fn json_str(s: &str) -> (r: JsonValue)
    ensures
        model(r) == JsonModel::Str(s@),
{
    JsonValue::Str(s.to_owned())
}

/// An optional string: the string, or `null`.
pub open spec fn opt_str_model(o: Option<String>) -> JsonModel {
    match o {
        Some(s) => JsonModel::Str(s@),
        None => JsonModel::Null,
    }
}

/// An optional string: the string, or `null`.
pub fn json_opt_str(o: &Option<String>) -> (r: JsonValue)
    ensures
        model(r) == opt_str_model(*o),
{
    match o {
        Some(s) => JsonValue::Str(s.clone()),
        None => JsonValue::Null,
    }
}

/// An integer value.
pub fn json_i64(v: i64) -> (r: JsonValue)
    ensures
        model(r) == JsonModel::Number(crate::text::signed_decimal(v as int)),
{
    JsonValue::Number(crate::text::i64_to_decimal(v))
}

/// An unsigned integer value.
pub fn json_u64(v: u64) -> (r: JsonValue)
    ensures
        model(r) == JsonModel::Number(crate::text::decimal(v as nat)),
{
    JsonValue::Number(crate::text::u64_to_decimal(v))
}

/// The first `n` strings of `v` as JSON strings.
pub open spec fn str_models(v: Seq<String>, n: nat) -> Seq<JsonModel> {
    Seq::new(n, |i: int| JsonModel::Str(v[i]@))
}

/// An array of strings.
pub open spec fn str_array_model(v: Seq<String>) -> JsonModel {
    JsonModel::Array(str_models(v, v.len()))
}

/// An array of strings.
pub fn json_str_array(v: &Vec<String>) -> (r: JsonValue)
    ensures
        model(r) == str_array_model(v@),
{
    let mut items: Vec<JsonValue> = Vec::new();
    let mut i: usize = 0;
    assert(elements_model(items@) =~= str_models(v@, 0));
    while i < v.len()
        invariant
            0 <= i <= v@.len(),
            items@.len() == i,
            elements_model(items@) == str_models(v@, i as nat),
        decreases v@.len() - i,
    {
        let ghost before = items@;
        items.push(JsonValue::Str(v[i].clone()));
        assert(items@.subrange(0, items@.len() - 1) =~= before);
        assert(model(items@[i as int]) == JsonModel::Str(v@[i as int]@));
        assert(elements_model(items@) =~= str_models(v@, i as nat + 1));
        i = i + 1;
    }
    JsonValue::Array(items)
}

/// An array of strings given by their texts.
pub open spec fn texts_model(v: Seq<Seq<char>>) -> JsonModel {
    JsonModel::Array(v.map_values(|s: Seq<char>| JsonModel::Str(s)))
}

/// A member for an optional text, left out when absent.
pub open spec fn opt_text_member(name: Seq<char>, v: Option<Seq<char>>) -> Seq<(Seq<char>, JsonModel)> {
    match v {
        Some(s) => seq![(name, JsonModel::Str(s))],
        None => seq![],
    }
}

/// A member for a list of texts, left out when the list is empty.
pub open spec fn texts_member(name: Seq<char>, v: Seq<Seq<char>>) -> Seq<(Seq<char>, JsonModel)> {
    if v.len() == 0 {
        seq![]
    } else {
        seq![(name, texts_model(v))]
    }
}

/// The texts of borrowed strings.
pub open spec fn ref_views(v: Seq<&str>) -> Seq<Seq<char>> {
    v.map_values(|s: &str| s@)
}

/// An array of borrowed strings.
pub fn json_strs(v: &Vec<&str>) -> (r: JsonValue)
    ensures
        model(r) == texts_model(ref_views(v@)),
{
    let mut items: Vec<JsonValue> = Vec::new();
    let mut i: usize = 0;
    assert(elements_model(items@) =~= ref_views(v@.take(0)).map_values(
        |s: Seq<char>| JsonModel::Str(s),
    ));
    while i < v.len()
        invariant
            0 <= i <= v@.len(),
            items@.len() == i,
            elements_model(items@) == ref_views(v@.take(i as int)).map_values(
                |s: Seq<char>| JsonModel::Str(s),
            ),
        decreases v@.len() - i,
    {
        let ghost before = items@;
        items.push(JsonValue::Str(v[i].to_owned()));
        assert(items@.subrange(0, items@.len() - 1) =~= before);
        assert(model(items@[i as int]) == JsonModel::Str(v@[i as int]@));
        assert(ref_views(v@.take(i as int + 1)) =~= ref_views(v@.take(i as int)).push(v@[i as int]@));
        assert(elements_model(items@) =~= ref_views(v@.take(i as int + 1)).map_values(
            |s: Seq<char>| JsonModel::Str(s),
        ));
        i = i + 1;
    }
    assert(v@.take(v@.len() as int) =~= v@);
    JsonValue::Array(items)
}

/// Appends an optional text member, when present.
pub fn push_opt_text(members: &mut Vec<(String, JsonValue)>, name: &str, v: Option<&str>)
    ensures
        members_model(final(members)@) == members_model(old(members)@) + opt_text_member(
            name@,
            match v {
                Some(s) => Some(s@),
                None => None,
            },
        ),
{
    match v {
        Some(s) => push_member(members, name, json_str(s)),
        None => {
            assert(members_model(old(members)@) =~= members_model(old(members)@) + Seq::<
                (Seq<char>, JsonModel),
            >::empty());
        },
    }
}

/// Appends a member for a list of texts, when it is not empty.
pub fn push_texts(members: &mut Vec<(String, JsonValue)>, name: &str, v: &Vec<&str>)
    ensures
        members_model(final(members)@) == members_model(old(members)@) + texts_member(
            name@,
            ref_views(v@),
        ),
{
    if v.len() == 0 {
        assert(members_model(old(members)@) =~= members_model(old(members)@) + Seq::<
            (Seq<char>, JsonModel),
        >::empty());
    } else {
        push_member(members, name, json_strs(v));
    }
}

} // verus!
