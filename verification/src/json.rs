//! A plain model of JSON values, as the engine's rule conditions, scenario
//! scopes and simulation reports hold them.

use vstd::prelude::*;
use crate::text::same_text;

verus! {

/// A JSON number: a non-negative integer, a negative integer, or a floating
/// point number kept in its textual form.
pub enum JsonNumber {
    PosInt(u64),
    NegInt(i64),
    Float(String),
}

/// A JSON value. Object members keep their order; keys are unique when the
/// value comes from a parsed document.
pub enum JsonValue {
    Null,
    Bool(bool),
    Number(JsonNumber),
    String(String),
    Array(Vec<JsonValue>),
    Object(Vec<(String, JsonValue)>),
}

/// The value of the first member named `key`, if any.
pub open spec fn member_lookup(members: Seq<(String, JsonValue)>, key: Seq<char>) -> Option<JsonValue>
    decreases members.len(),
{
    if members.len() == 0 {
        None
    } else if members[0].0@ == key {
        Some(members[0].1)
    } else {
        member_lookup(members.drop_first(), key)
    }
}

/// `value[key]` for an object, nothing for any other value.
pub open spec fn json_get(value: JsonValue, key: Seq<char>) -> Option<JsonValue> {
    match value {
        JsonValue::Object(members) => member_lookup(members@, key),
        _ => None,
    }
}

/// The text of a JSON string.
pub open spec fn json_as_str(value: JsonValue) -> Option<Seq<char>> {
    match value {
        JsonValue::String(s) => Some(s@),
        _ => None,
    }
}

/// The value of a non-negative integer.
pub open spec fn json_as_u64(value: JsonValue) -> Option<u64> {
    match value {
        JsonValue::Number(JsonNumber::PosInt(n)) => Some(n),
        _ => None,
    }
}

impl JsonValue {
    /// Whether this is `null`.
    pub fn is_null(&self) -> (r: bool)
        ensures
            r == (*self is Null),
    {
        match self {
            JsonValue::Null => true,
            _ => false,
        }
    }

    /// The member named `key` of an object; nothing for any other value.
    pub fn get(&self, key: &str) -> (r: Option<&JsonValue>)
        ensures
            r is Some == json_get(*self, key@) is Some,
            r matches Some(v) ==> *v == json_get(*self, key@)->0,
    {
        match self {
            JsonValue::Object(members) => {
                let mut i: usize = 0;
                proof {
                    assert(members@.skip(0) =~= members@);
                }
                while i < members.len()
                    invariant
                        i <= members.len(),
                        json_get(*self, key@) == member_lookup(members@, key@),
                        member_lookup(members@, key@) == member_lookup(members@.skip(i as int), key@),
                    decreases members.len() - i,
                {
                    proof {
                        assert(members@.skip(i as int).drop_first() =~= members@.skip(i + 1int));
                        assert(members@.skip(i as int)[0] == members@[i as int]);
                    }
                    if same_text(members[i].0.as_str(), key) {
                        proof {
                            let rest = members@.skip(i as int);
                            assert(rest.len() > 0);
                            assert(rest[0].0@ == key@);
                            assert(member_lookup(rest, key@) == Some(rest[0].1));
                        }
                        return Some(&members[i].1);
                    }
                    i += 1;
                }
                None
            },
            _ => None,
        }
    }

    /// The text of a string value.
    pub fn as_str(&self) -> (r: Option<&str>)
        ensures
            r is Some == json_as_str(*self) is Some,
            r matches Some(s) ==> s@ == json_as_str(*self)->0,
    {
        match self {
            JsonValue::String(s) => Some(s.as_str()),
            _ => None,
        }
    }

    /// The value of a non-negative integer.
    pub fn as_u64(&self) -> (r: Option<u64>)
        ensures
            r == json_as_u64(*self),
    {
        match self {
            JsonValue::Number(JsonNumber::PosInt(n)) => Some(*n),
            _ => None,
        }
    }

    /// The elements of an array.
    pub fn as_array(&self) -> (r: Option<&Vec<JsonValue>>)
        ensures
            r is Some == (*self is Array),
            r matches Some(a) ==> *self == JsonValue::Array(*a),
    {
        match self {
            JsonValue::Array(a) => Some(a),
            _ => None,
        }
    }
}

/// The members of an object after setting `key` to `value`: the first member
/// with that key gets the value, or a member is appended.
pub open spec fn members_with(members: Seq<(String, JsonValue)>, key: String, value: JsonValue) -> Seq<(String, JsonValue)>
    decreases members.len(),
{
    if members.len() == 0 {
        seq![(key, value)]
    } else if members[0].0@ == key@ {
        members.update(0, (members[0].0, value))
    } else {
        seq![members[0]] + members_with(members.drop_first(), key, value)
    }
}

impl JsonValue {
    /// `self[key] = value` for an object, or for `null` (which becomes an
    /// object holding that member alone).
    pub fn set_member(self, key: String, value: JsonValue) -> (r: JsonValue)
        requires
            self is Object || self is Null,
        ensures
            r is Object,
            r->Object_0@ == match self {
                JsonValue::Object(m) => members_with(m@, key, value),
                _ => seq![(key, value)],
            },
    {
        match self {
            JsonValue::Object(members) => {
                let ghost all = members@;
                let mut members = members;
                let mut i: usize = 0;
                while i < members.len()
                    invariant
                        i <= members.len(),
                        members@ == all,
                        self is Object && self->Object_0@ == all,
                        forall|j: int| 0 <= j < i ==> #[trigger] all[j].0@ != key@,
                    decreases members.len() - i,
                {
                    if same_text(members[i].0.as_str(), key.as_str()) {
                        let (k, _) = members.remove(i);
                        members.insert(i, (k, value));
                        proof {
                            lemma_members_with_found(all, key, value, i as int);
                            assert(members@ =~= all.update(i as int, (all[i as int].0, value)));
                        }
                        return JsonValue::Object(members);
                    }
                    i += 1;
                }
                members.push((key, value));
                proof {
                    lemma_members_with_absent(all, key, value);
                }
                JsonValue::Object(members)
            },
            _ => {
                let mut members: Vec<(String, JsonValue)> = Vec::new();
                members.push((key, value));
                proof {
                    assert(members@ =~= seq![(key, value)]);
                }
                JsonValue::Object(members)
            },
        }
    }
}

proof fn lemma_members_with_found(m: Seq<(String, JsonValue)>, key: String, value: JsonValue, i: int)
    requires
        0 <= i < m.len(),
        m[i].0@ == key@,
        forall|j: int| 0 <= j < i ==> #[trigger] m[j].0@ != key@,
    ensures
        members_with(m, key, value) == m.update(i, (m[i].0, value)),
    decreases i,
{
    if i > 0 {
        let t = m.drop_first();
        assert forall|j: int| 0 <= j < i - 1 implies #[trigger] t[j].0@ != key@ by {
            assert(t[j] == m[j + 1]);
        }
        lemma_members_with_found(t, key, value, i - 1);
        assert(seq![m[0]] + t.update(i - 1, (t[i - 1].0, value)) =~= m.update(i, (m[i].0, value)));
    }
}

proof fn lemma_members_with_absent(m: Seq<(String, JsonValue)>, key: String, value: JsonValue)
    requires
        forall|j: int| 0 <= j < m.len() ==> #[trigger] m[j].0@ != key@,
    ensures
        members_with(m, key, value) == m.push((key, value)),
    decreases m.len(),
{
    if m.len() > 0 {
        let t = m.drop_first();
        assert forall|j: int| 0 <= j < t.len() implies #[trigger] t[j].0@ != key@ by {
            assert(t[j] == m[j + 1]);
        }
        lemma_members_with_absent(t, key, value);
        assert(seq![m[0]] + t.push((key, value)) =~= m.push((key, value)));
    } else {
        assert(seq![(key, value)] =~= m.push((key, value)));
    }
}

/// Looking a key up after setting a member finds the new value for that key
/// and the old lookup for every other key.
pub proof fn lemma_lookup_members_with(m: Seq<(String, JsonValue)>, key: String, value: JsonValue, k: Seq<char>)
    ensures
        member_lookup(members_with(m, key, value), k) == if k == key@ { Some(value) } else { member_lookup(m, k) },
    decreases m.len(),
{
    if m.len() > 0 {
        let t = m.drop_first();
        let r = members_with(m, key, value);
        if m[0].0@ == key@ {
            assert(r == m.update(0, (m[0].0, value)));
            assert(r[0] == (m[0].0, value));
            assert(r.drop_first() =~= t);
        } else {
            lemma_lookup_members_with(t, key, value, k);
            assert(r == seq![m[0]] + members_with(t, key, value));
            assert(r[0] == m[0]);
            assert(r.drop_first() =~= members_with(t, key, value));
        }
    } else {
        let r = members_with(m, key, value);
        assert(r == seq![(key, value)]);
        assert(r[0] == (key, value));
        assert(r.drop_first() =~= Seq::<(String, JsonValue)>::empty());
        assert(member_lookup(Seq::<(String, JsonValue)>::empty(), k) is None);
    }
}

} // verus!
