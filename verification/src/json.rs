//! A JSON value model for the parts of JSON-RPC traffic that the proxy inspects
//! or rewrites: tool-call parameters, their arguments and tool results.
//!
//! Numbers keep the text that the JSON parser printed for them, so no floating
//! point is involved; strings hold their decoded characters.  Objects keep their
//! members in order; a lookup finds the first member with the key, and an insert
//! replaces that member or appends a new one, as a map keyed by member name does.
use vstd::prelude::*;
use vstd::string::*;

verus! {

/// A JSON value held as plain data.
#[derive(Debug, PartialEq, Eq)]
pub enum JsonValue {
    Null,
    Bool(bool),
    /// The number as JSON text, e.g. `1`, `-2.5e3`.
    Number(String),
    /// A string, decoded.
    Str(String),
    Array(Vec<JsonValue>),
    /// Members in order: (name, value).
    Object(Vec<(String, JsonValue)>),
}

/// The mathematical model of a JSON value.
pub enum JsonModel {
    Null,
    Bool(bool),
    Number(Seq<char>),
    Str(Seq<char>),
    Array(Seq<JsonModel>),
    Object(Seq<(Seq<char>, JsonModel)>),
}

/// The model of a value: every string by its characters, every container by
/// the models of its elements.
pub open spec fn json_model(v: JsonValue) -> JsonModel
    decreases v,
{
    match v {
        JsonValue::Null => JsonModel::Null,
        JsonValue::Bool(b) => JsonModel::Bool(b),
        JsonValue::Number(n) => JsonModel::Number(n@),
        JsonValue::Str(s) => JsonModel::Str(s@),
        JsonValue::Array(items) => JsonModel::Array(
            Seq::new(
                items@.len(),
                |i: int|
                    if 0 <= i < items@.len() {
                        json_model(items@[i])
                    } else {
                        JsonModel::Null
                    },
            ),
        ),
        JsonValue::Object(members) => JsonModel::Object(
            Seq::new(
                members@.len(),
                |i: int|
                    if 0 <= i < members@.len() {
                        (members@[i].0@, json_model(members@[i].1))
                    } else {
                        (Seq::empty(), JsonModel::Null)
                    },
            ),
        ),
    }
}

impl View for JsonValue {
    type V = JsonModel;

    open spec fn view(&self) -> JsonModel {
        json_model(*self)
    }
}

/// The model of an object's member list.
pub open spec fn members_model(ms: Seq<(String, JsonValue)>) -> Seq<(Seq<char>, JsonModel)> {
    Seq::new(ms.len(), |i: int| (ms[i].0@, json_model(ms[i].1)))
}

/// The value of the first member named `key`, if any.
pub open spec fn lookup(ms: Seq<(Seq<char>, JsonModel)>, key: Seq<char>) -> Option<JsonModel>
    decreases ms.len(),
{
    if ms.len() == 0 {
        None
    } else if ms[0].0 == key {
        Some(ms[0].1)
    } else {
        lookup(ms.drop_first(), key)
    }
}

/// The member list after setting `key` to `value`: the first member named `key`
/// takes the new value in place; without one, the member is appended.
pub open spec fn insert_member(
    ms: Seq<(Seq<char>, JsonModel)>,
    key: Seq<char>,
    value: JsonModel,
) -> Seq<(Seq<char>, JsonModel)>
    decreases ms.len(),
{
    if ms.len() == 0 {
        seq![(key, value)]
    } else if ms[0].0 == key {
        ms.update(0, (key, value))
    } else {
        seq![ms[0]] + insert_member(ms.drop_first(), key, value)
    }
}

/// No two members share a name.
pub open spec fn keys_unique(ms: Seq<(Seq<char>, JsonModel)>) -> bool {
    forall|i: int, j: int| 0 <= i < ms.len() && 0 <= j < ms.len() && i != j ==> ms[i].0 != ms[j].0
}

impl JsonModel {
    /// `value.get(key)` of a JSON value: the member of an object, `None` for
    /// anything else.
    pub open spec fn get(self, key: Seq<char>) -> Option<JsonModel> {
        match self {
            JsonModel::Object(ms) => lookup(ms, key),
            _ => None,
        }
    }

    /// The string a value holds, if it is a string.
    pub open spec fn as_str(self) -> Option<Seq<char>> {
        match self {
            JsonModel::Str(s) => Some(s),
            _ => None,
        }
    }

    /// An object with `key` set to `value`; other values are left as they are.
    pub open spec fn with_member(self, key: Seq<char>, value: JsonModel) -> JsonModel {
        match self {
            JsonModel::Object(ms) => JsonModel::Object(insert_member(ms, key, value)),
            _ => self,
        }
    }
}

/// The model of an object is the model of its member list.
pub proof fn lemma_object_model(ms: Vec<(String, JsonValue)>)
    ensures
        json_model(JsonValue::Object(ms)) == JsonModel::Object(members_model(ms@)),
{
    let m = json_model(JsonValue::Object(ms));
    assert(m->Object_0 =~= members_model(ms@));
}

/// Lookup in a list whose first `i` members are not named `key`.
proof fn lemma_lookup_skip(ms: Seq<(Seq<char>, JsonModel)>, key: Seq<char>, i: int)
    requires
        0 <= i <= ms.len(),
        forall|j: int| 0 <= j < i ==> ms[j].0 != key,
    ensures
        lookup(ms, key) == lookup(ms.skip(i), key),
    decreases i,
{
    if i > 0 {
        lemma_lookup_skip(ms.drop_first(), key, i - 1);
        assert(ms.drop_first().skip(i - 1) =~= ms.skip(i));
    } else {
        assert(ms.skip(0) =~= ms);
    }
}

/// Inserting where the first `i` members are not named `key` leaves them in place.
proof fn lemma_insert_at(ms: Seq<(Seq<char>, JsonModel)>, key: Seq<char>, value: JsonModel, i: int)
    requires
        0 <= i <= ms.len(),
        forall|j: int| 0 <= j < i ==> ms[j].0 != key,
        i < ms.len() ==> ms[i].0 == key,
    ensures
        insert_member(ms, key, value) == if i < ms.len() {
            ms.update(i, (key, value))
        } else {
            ms.push((key, value))
        },
    decreases i,
{
    if i > 0 {
        lemma_insert_at(ms.drop_first(), key, value, i - 1);
        if i < ms.len() {
            assert(seq![ms[0]] + ms.drop_first().update(i - 1, (key, value)) =~= ms.update(
                i,
                (key, value),
            ));
        } else {
            assert(seq![ms[0]] + ms.drop_first().push((key, value)) =~= ms.push((key, value)));
        }
    } else if ms.len() == 0 {
        assert(seq![(key, value)] =~= ms.push((key, value)));
    }
}

/// A value read back under the key it was just written to is the written value.
pub proof fn lemma_lookup_after_insert(ms: Seq<(Seq<char>, JsonModel)>, key: Seq<char>, value: JsonModel)
    ensures
        lookup(insert_member(ms, key, value), key) == Some(value),
    decreases ms.len(),
{
    if ms.len() > 0 && ms[0].0 != key {
        lemma_lookup_after_insert(ms.drop_first(), key, value);
        let r = insert_member(ms, key, value);
        assert(r.drop_first() =~= insert_member(ms.drop_first(), key, value));
    }
}

/// Writing one key leaves the value under every other key unchanged.
pub proof fn lemma_lookup_other_after_insert(
    ms: Seq<(Seq<char>, JsonModel)>,
    key: Seq<char>,
    other: Seq<char>,
    value: JsonModel,
)
    requires
        other != key,
    ensures
        lookup(insert_member(ms, key, value), other) == lookup(ms, other),
    decreases ms.len(),
{
    let r = insert_member(ms, key, value);
    if ms.len() == 0 {
        assert(r.drop_first() =~= Seq::<(Seq<char>, JsonModel)>::empty());
        assert(lookup(r.drop_first(), other) is None);
    } else if ms[0].0 == key {
        assert(r.drop_first() =~= ms.drop_first());
        assert(lookup(r, other) == lookup(r.drop_first(), other));
    } else {
        lemma_lookup_other_after_insert(ms.drop_first(), key, other, value);
        assert(r.drop_first() =~= insert_member(ms.drop_first(), key, value));
    }
}

/// Inserting into a member list without repeated names gives one without
/// repeated names.
pub proof fn lemma_insert_keeps_keys_unique(
    ms: Seq<(Seq<char>, JsonModel)>,
    key: Seq<char>,
    value: JsonModel,
)
    requires
        keys_unique(ms),
    ensures
        keys_unique(insert_member(ms, key, value)),
{
    let i = choose|i: int| 0 <= i < ms.len() && ms[i].0 == key;
    if exists|i: int| 0 <= i < ms.len() && ms[i].0 == key {
        assert forall|j: int| 0 <= j < i implies ms[j].0 != key by {}
        lemma_insert_at(ms, key, value, i);
    } else {
        lemma_insert_at(ms, key, value, ms.len() as int);
    }
}

impl JsonValue {
    /// A copy with the same model.
    pub fn clone_value(&self) -> (r: JsonValue)
        ensures
            r@ == self@,
        decreases self,
    {
        match self {
            JsonValue::Null => JsonValue::Null,
            JsonValue::Bool(b) => JsonValue::Bool(*b),
            JsonValue::Number(n) => JsonValue::Number(n.clone()),
            JsonValue::Str(s) => JsonValue::Str(s.clone()),
            JsonValue::Array(items) => {
                let mut out: Vec<JsonValue> = Vec::new();
                let mut k: usize = 0;
                while k < items.len()
                    invariant
                        k <= items@.len(),
                        *self == JsonValue::Array(*items),
                        out@.len() == k,
                        forall|m: int| 0 <= m < k ==> json_model(#[trigger] out@[m]) == json_model(items@[m]),
                    decreases items@.len() - k,
                {
                    proof {
                        broadcast use vstd::std_specs::vec::axiom_vec_index_decreases;

                        assert(decreases_to!(*self => self->Array_0));
                        assert(decreases_to!(self->Array_0 => self->Array_0[k as int]));
                    }
                    let c = items[k].clone_value();
                    out.push(c);
                    k = k + 1;
                }
                let r = JsonValue::Array(out);
                assert(r@->Array_0 =~= self@->Array_0);
                r
            },
            JsonValue::Object(members) => {
                let mut out: Vec<(String, JsonValue)> = Vec::new();
                let mut k: usize = 0;
                while k < members.len()
                    invariant
                        k <= members@.len(),
                        *self == JsonValue::Object(*members),
                        out@.len() == k,
                        forall|m: int|
                            0 <= m < k ==> (#[trigger] out@[m]).0@ == members@[m].0@ && json_model(
                                out@[m].1,
                            ) == json_model(members@[m].1),
                    decreases members@.len() - k,
                {
                    proof {
                        broadcast use vstd::std_specs::vec::axiom_vec_index_decreases;

                        assert(decreases_to!(*self => self->Object_0));
                        assert(decreases_to!(self->Object_0 => self->Object_0[k as int]));
                        assert(decreases_to!(self->Object_0[k as int] => self->Object_0[k as int].1));
                    }
                    let name = members[k].0.clone();
                    let c = members[k].1.clone_value();
                    out.push((name, c));
                    k = k + 1;
                }
                let r = JsonValue::Object(out);
                assert(r@->Object_0 =~= self@->Object_0);
                r
            },
        }
    }

    /// The member named `key` of an object; `None` for anything else.
    pub fn get(&self, key: &String) -> (r: Option<&JsonValue>)
        ensures
            match r {
                Some(v) => self@.get(key@) == Some(v@),
                None => self@.get(key@) is None,
            },
    {
        match self {
            JsonValue::Object(members) => {
                proof {
                    lemma_object_model(*members);
                }
                let ghost ms = members_model(members@);
                let mut i: usize = 0;
                while i < members.len()
                    invariant
                        i <= members@.len(),
                        ms == members_model(members@),
                        self@ == JsonModel::Object(ms),
                        forall|j: int| 0 <= j < i ==> ms[j].0 != key@,
                    decreases members@.len() - i,
                {
                    if members[i].0 == *key {
                        proof {
                            lemma_lookup_skip(ms, key@, i as int);
                            assert(ms.skip(i as int)[0] == ms[i as int]);
                        }
                        return Some(&members[i].1);
                    }
                    i = i + 1;
                }
                proof {
                    lemma_lookup_skip(ms, key@, i as int);
                    assert(ms.skip(i as int) =~= Seq::<(Seq<char>, JsonModel)>::empty());
                }
                None
            },
            _ => None,
        }
    }

    /// The characters of a string value; `None` for anything else.
    pub fn as_str(&self) -> (r: Option<&String>)
        ensures
            match r {
                Some(s) => self@.as_str() == Some(s@),
                None => self@.as_str() is None,
            },
    {
        match self {
            JsonValue::Str(s) => Some(s),
            _ => None,
        }
    }

    /// Sets member `key` of an object to `value`; any other value is left as it is.
    pub fn with_member(self, key: String, value: JsonValue) -> (r: JsonValue)
        ensures
            r@ == self@.with_member(key@, value@),
    {
        match self {
            JsonValue::Object(members) => {
                proof {
                    lemma_object_model(members);
                }
                let ghost ms = members_model(members@);
                let mut members = members;
                let mut i: usize = 0;
                let mut found = false;
                while !found && i < members.len()
                    invariant
                        i <= members@.len(),
                        ms == members_model(members@),
                        forall|j: int| 0 <= j < i ==> ms[j].0 != key@,
                        found ==> i < members@.len() && ms[i as int].0 == key@,
                    decreases members@.len() - i + (if found { 0int } else { 1int }),
                {
                    if members[i].0 == key {
                        found = true;
                    } else {
                        i = i + 1;
                    }
                }
                let ghost vm = json_model(value);
                let ghost km = key@;
                if found {
                    proof {
                        lemma_insert_at(ms, km, vm, i as int);
                    }
                    members.set(i, (key, value));
                    proof {
                        assert(members_model(members@) =~= ms.update(i as int, (km, vm)));
                        lemma_object_model(members);
                    }
                } else {
                    proof {
                        lemma_insert_at(ms, km, vm, i as int);
                    }
                    members.push((key, value));
                    proof {
                        assert(members_model(members@) =~= ms.push((km, vm)));
                        lemma_object_model(members);
                    }
                }
                JsonValue::Object(members)
            },
            other => other,
        }
    }

    /// An object without members.
    pub fn empty_object() -> (r: JsonValue)
        ensures
            r@ == JsonModel::Object(Seq::empty()),
    {
        let members: Vec<(String, JsonValue)> = Vec::new();
        proof {
            lemma_object_model(members);
            assert(members_model(members@) =~= Seq::empty());
        }
        JsonValue::Object(members)
    }
}

} // verus!
