//! JSON documents as the services store and answer them.
//!
//! Objects keep their members in a vector; a lookup finds the first member
//! with the key, and an insertion replaces that member's value or appends a
//! new member, as a map from keys to values does.
use vstd::prelude::*;

verus! {

/// A JSON number: a non-negative integer, a negative integer, or a
/// floating-point number held as its IEEE-754 bit pattern.
pub enum JsonNumber {
    PosInt(u64),
    NegInt(i64),
    FloatBits(u64),
}

/// A JSON value.
pub enum Json {
    Null,
    Bool(bool),
    Number(JsonNumber),
    Str(String),
    Array(Vec<Json>),
    Object(Vec<(String, Json)>),
}

/// Position of the first member of `members` whose key is `key`.
pub open spec fn key_position(members: Seq<(String, Json)>, key: Seq<char>) -> Option<int>
    decreases members.len(),
{
    if members.len() == 0 {
        None
    } else if members[0].0@ == key {
        Some(0)
    } else {
        match key_position(members.drop_first(), key) {
            Some(i) => Some(i + 1),
            None => None,
        }
    }
}

/// Value of the member `key` of an object; `None` for a missing member or a
/// value that is not an object.
pub open spec fn field(value: Json, key: Seq<char>) -> Option<Json> {
    match value {
        Json::Object(members) => match key_position(members@, key) {
            Some(i) => Some(members@[i].1),
            None => None,
        },
        _ => None,
    }
}

/// The members after setting `key` to `value`: the first member with that key
/// gets the new value, or a new member is appended.
pub open spec fn members_with(members: Seq<(String, Json)>, key: String, value: Json) -> Seq<(String, Json)> {
    match key_position(members, key@) {
        Some(i) => members.update(i, (members[i].0, value)),
        None => members.push((key, value)),
    }
}

/// No two members of an object share a key.
pub open spec fn distinct_keys(members: Seq<(String, Json)>) -> bool {
    forall|i: int, j: int|
        0 <= i < members.len() && 0 <= j < members.len() && i != j ==> #[trigger] members[i].0@
            != #[trigger] members[j].0@
}

/// The string held by a JSON string value.
pub open spec fn text_of(value: Json) -> Option<Seq<char>> {
    match value {
        Json::Str(s) => Some(s@),
        _ => None,
    }
}

pub proof fn lemma_key_position_bounds(members: Seq<(String, Json)>, key: Seq<char>)
    ensures
        key_position(members, key) matches Some(i) ==> 0 <= i < members.len() && members[i].0@
            == key && forall|j: int| 0 <= j < i ==> members[j].0@ != key,
        key_position(members, key) is None ==> forall|j: int|
            0 <= j < members.len() ==> members[j].0@ != key,
    decreases members.len(),
{
    if members.len() > 0 {
        lemma_key_position_bounds(members.drop_first(), key);
        if members[0].0@ != key {
            assert forall|j: int| 0 < j < members.len() implies members[j] == members.drop_first()[j
                - 1] by {}
        }
    }
}

/// Law: after setting a member, reading it gives the value set, and every
/// other member reads as before.
pub proof fn lemma_members_with_reads(members: Seq<(String, Json)>, key: String, value: Json, other: Seq<char>)
    ensures
        key_position(members_with(members, key, value), key@) matches Some(i) && members_with(
            members,
            key,
            value,
        )[i].1 == value,
        other != key@ ==> match key_position(members_with(members, key, value), other) {
            Some(i) => key_position(members, other) matches Some(j) && members_with(
                members,
                key,
                value,
            )[i].1 == members[j].1,
            None => key_position(members, other) is None,
        },
{
    let after = members_with(members, key, value);
    lemma_key_position_bounds(members, key@);
    lemma_key_position_bounds(members, other);
    lemma_key_position_bounds(after, key@);
    lemma_key_position_bounds(after, other);
    match key_position(members, key@) {
        Some(i) => {
            assert(after[i].0@ == key@);
        },
        None => {
            assert(after[members.len() as int].0@ == key@);
        },
    }
    if other != key@ {
        match key_position(members, other) {
            Some(j) => {
                assert(after[j].0@ == other);
            },
            None => {},
        }
    }
}

/// An object in which no two members share a key.
pub open spec fn distinct_object(v: Json) -> bool {
    v matches Json::Object(m) && distinct_keys(m@)
}

/// A value that is not an object, or an object whose keys are distinct.
pub open spec fn distinct_if_object(v: Json) -> bool {
    v is Object ==> distinct_object(v)
}

/// Setting a member of an object whose keys are distinct keeps them distinct.
pub proof fn lemma_members_with_distinct(members: Seq<(String, Json)>, key: String, value: Json)
    requires
        distinct_keys(members),
    ensures
        distinct_keys(members_with(members, key, value)),
{
    lemma_key_position_bounds(members, key@);
    let after = members_with(members, key, value);
    assert forall|i: int, j: int|
        0 <= i < after.len() && 0 <= j < after.len() && i != j implies #[trigger] after[i].0@
        != #[trigger] after[j].0@ by {
        match key_position(members, key@) {
            Some(p) => {
                assert(after[i].0 == members[i].0);
                assert(after[j].0 == members[j].0);
            },
            None => {
                if i < members.len() && j < members.len() {
                    assert(after[i] == members[i]);
                    assert(after[j] == members[j]);
                } else if i < members.len() {
                    assert(after[i] == members[i]);
                } else {
                    assert(after[j] == members[j]);
                }
            },
        }
    }
}

/// In an object with distinct keys, each member is found under its key.
pub proof fn lemma_distinct_field(members: Vec<(String, Json)>, i: int)
    requires
        distinct_keys(members@),
        0 <= i < members@.len(),
    ensures
        field(Json::Object(members), members@[i].0@) == Some(members@[i].1),
{
    lemma_key_position_bounds(members@, members@[i].0@);
    match key_position(members@, members@[i].0@) {
        Some(k) => {
            if k != i {
                assert(members@[k].0@ == members@[i].0@);
            }
        },
        None => {},
    }
}

/// In an object, a key that no member carries is not found.
pub proof fn lemma_absent_field(members: Vec<(String, Json)>, key: Seq<char>)
    requires
        forall|i: int| 0 <= i < members@.len() ==> members@[i].0@ != key,
    ensures
        field(Json::Object(members), key) is None,
{
    lemma_key_position_bounds(members@, key);
}

impl Json {
    /// `Json::Object` with no members.
    pub fn empty_object() -> (out: Json)
        ensures
            out matches Json::Object(m) && m@.len() == 0,
    {
        Json::Object(Vec::new())
    }

    /// The member `key` of an object (`Value::get`).
    pub fn get(&self, key: &str) -> (out: Option<&Json>)
        ensures
            match out {
                Some(v) => field(*self, key@) == Some(*v),
                None => field(*self, key@) is None,
            },
    {
        match self {
            Json::Object(members) => member_value(members, key),
            _ => None,
        }
    }

    /// Whether the value is a JSON object.
    pub fn is_object(&self) -> (out: bool)
        ensures
            out == (*self is Object),
    {
        match self {
            Json::Object(_) => true,
            _ => false,
        }
    }

    /// The string held by a string value (`Value::as_str`).
    pub fn as_text(&self) -> (out: Option<&String>)
        ensures
            match out {
                Some(s) => text_of(*self) == Some(s@),
                None => text_of(*self) is None,
            },
    {
        match self {
            Json::Str(s) => Some(s),
            _ => None,
        }
    }

    /// The flag held by a boolean value (`Value::as_bool`).
    pub fn as_flag(&self) -> (out: Option<bool>)
        ensures
            match *self {
                Json::Bool(b) => out == Some(b),
                _ => out is None,
            },
    {
        match self {
            Json::Bool(b) => Some(*b),
            _ => None,
        }
    }

    /// The elements of an array value (`Value::as_array`).
    pub fn as_list(&self) -> (out: Option<&Vec<Json>>)
        ensures
            match *self {
                Json::Array(items) => out == Some(&items),
                _ => out is None,
            },
    {
        match self {
            Json::Array(items) => Some(items),
            _ => None,
        }
    }

    /// Sets the member `key` of an object (`Map::insert`); a value that is not
    /// an object is returned as it is.
    pub fn with_member(self, key: String, value: Json) -> (out: Json)
        ensures
            match self {
                Json::Object(before) => out matches Json::Object(after) && after@ == members_with(
                    before@,
                    key,
                    value,
                ),
                _ => out == self,
            },
    {
        match self {
            Json::Object(members) => {
                let mut members = members;
                set_member(&mut members, key, value);
                Json::Object(members)
            },
            other => other,
        }
    }
}

/// The value of the first member named `key`.
pub fn member_value<'a>(members: &'a Vec<(String, Json)>, key: &str) -> (out: Option<&'a Json>)
    ensures
        match out {
            Some(v) => key_position(members@, key@) matches Some(i) && members@[i].1 == *v,
            None => key_position(members@, key@) is None,
        },
{
    let mut i: usize = 0;
    while i < members.len()
        invariant
            i <= members.len(),
            forall|j: int| 0 <= j < i ==> members@[j].0@ != key@,
        decreases members.len() - i,
    {
        if crate::text::same_text(members[i].0.as_str(), key) {
            proof {
                lemma_key_position_bounds(members@, key@);
                if let Some(k) = key_position(members@, key@) {
                    assert(k == i);
                }
            }
            return Some(&members[i].1);
        }
        i = i + 1;
    }
    proof {
        lemma_key_position_bounds(members@, key@);
    }
    None
}

/// Sets the member `key` in a list of object members.
pub fn set_member(members: &mut Vec<(String, Json)>, key: String, value: Json)
    ensures
        final(members)@ == members_with(old(members)@, key, value),
{
    let ghost before = members@;
    let mut i: usize = 0;
    while i < members.len()
        invariant
            members@ == before,
            before == old(members)@,
            i <= members.len(),
            forall|j: int| 0 <= j < i ==> members@[j].0@ != key@,
        decreases members.len() - i,
    {
        if members[i].0 == key {
            proof {
                lemma_key_position_bounds(before, key@);
                if let Some(k) = key_position(before, key@) {
                    assert(k == i);
                }
            }
            let name = members[i].0.clone();
            assert(name == before[i as int].0);
            members.set(i, (name, value));
            assert(members@ == before.update(i as int, (before[i as int].0, value)));
            assert(key_position(before, key@) == Some(i as int));
            return;
        }
        i = i + 1;
    }
    proof {
        lemma_key_position_bounds(before, key@);
    }
    members.push((key, value));
}

/// Sets the member `key` of an object: the member reads as `value`, every
/// other member as before.
pub fn with_field(obj: Json, key: &str, value: Json) -> (out: Json)
    requires
        obj is Object,
    ensures
        out is Object,
        field(out, key@) == Some(value),
        forall|k: Seq<char>| k != key@ ==> #[trigger] field(out, k) == field(obj, k),
        distinct_object(obj) ==> distinct_object(out),
{
    let name = key.to_owned();
    let ghost old_obj = obj;
    let ghost members = obj->Object_0@;
    let out = obj.with_member(name, value);
    proof {
        lemma_members_with_reads(members, name, value, key@);
        if distinct_keys(members) {
            lemma_members_with_distinct(members, name, value);
        }
        assert forall|k: Seq<char>| k != key@ implies #[trigger] field(out, k) == field(old_obj, k) by {
            lemma_members_with_reads(members, name, value, k);
        }
    }
    out
}

/// The JSON number of a signed integer (`json!(i32)`).
pub fn signed_number(v: i64) -> (out: JsonNumber)
    ensures
        v >= 0 ==> out == JsonNumber::PosInt(v as u64),
        v < 0 ==> out == JsonNumber::NegInt(v),
{
    if v >= 0 {
        JsonNumber::PosInt(v as u64)
    } else {
        JsonNumber::NegInt(v)
    }
}

} // verus!
