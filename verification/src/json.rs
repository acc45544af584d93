//! The JSON payloads that carry authentication data.
//!
//! The handshake reads and writes the top-level fields of a JSON object and
//! looks at whether a field is a string. A payload is therefore modelled as
//! either an object, held as a list of fields of which the last binding of a
//! key is the one that counts, or any other JSON value, held as its text. A
//! field's value is a string, or any other JSON value held as its text.

use vstd::prelude::*;

verus! {

/// A JSON value as the handshake sees it.
pub enum JsonValue {
    /// A JSON string.
    Str(String),
    /// Any other JSON value, as JSON text.
    Other(String),
}

/// The mathematical view of a [`JsonValue`].
pub enum JsonView {
    Str(Seq<char>),
    Other(Seq<char>),
}

impl View for JsonValue {
    type V = JsonView;

    open spec fn view(&self) -> JsonView {
        match self {
            JsonValue::Str(s) => JsonView::Str(s@),
            JsonValue::Other(t) => JsonView::Other(t@),
        }
    }
}

impl JsonValue {
    /// A copy of this value.
    pub fn duplicate(&self) -> (v: JsonValue)
        ensures
            v@ == self@,
    {
        match self {
            JsonValue::Str(s) => JsonValue::Str(s.clone()),
            JsonValue::Other(t) => JsonValue::Other(t.clone()),
        }
    }
}

/// A JSON payload: an object of fields, or any other JSON value as its text.
pub enum Payload {
    Object(Vec<(String, JsonValue)>),
    Other(String),
}

/// The mathematical view of a [`Payload`]: an object is a map from keys to values.
pub enum PayloadView {
    Object(Map<Seq<char>, JsonView>),
    Other(Seq<char>),
}

/// The map that a list of fields denotes: each field binds its key, and a
/// later field overrides an earlier one with the same key.
pub open spec fn fields_map(fields: Seq<(String, JsonValue)>) -> Map<Seq<char>, JsonView>
    decreases fields.len(),
{
    if fields.len() == 0 {
        Map::empty()
    } else {
        fields_map(fields.drop_last()).insert(fields.last().0@, fields.last().1@)
    }
}

impl View for Payload {
    type V = PayloadView;

    open spec fn view(&self) -> PayloadView {
        match self {
            Payload::Object(fields) => PayloadView::Object(fields_map(fields@)),
            Payload::Other(t) => PayloadView::Other(t@),
        }
    }
}

/// The value that `payload[key]` denotes when it is a string.
pub open spec fn field_str(payload: PayloadView, key: Seq<char>) -> Option<Seq<char>> {
    match payload {
        PayloadView::Object(m) => if m.contains_key(key) {
            match m[key] {
                JsonView::Str(s) => Some(s),
                JsonView::Other(_) => None,
            }
        } else {
            None
        },
        PayloadView::Other(_) => None,
    }
}

/// A key that no field binds is not in the object.
pub proof fn lemma_fields_map_no_key(fields: Seq<(String, JsonValue)>, key: Seq<char>)
    requires
        forall|j: int| 0 <= j < fields.len() ==> fields[j].0@ != key,
    ensures
        !fields_map(fields).contains_key(key),
    decreases fields.len(),
{
    if fields.len() > 0 {
        lemma_fields_map_no_key(fields.drop_last(), key);
    }
}

/// A key holds the value of the last field that binds it: a later field
/// overrides an earlier one with the same key.
pub proof fn lemma_fields_map_last_key(fields: Seq<(String, JsonValue)>, key: Seq<char>, j: int)
    requires
        0 <= j < fields.len(),
        fields[j].0@ == key,
        forall|k: int| j < k < fields.len() ==> fields[k].0@ != key,
    ensures
        fields_map(fields).contains_key(key),
        fields_map(fields)[key] == fields[j].1@,
    decreases fields.len(),
{
    if j < fields.len() - 1 {
        lemma_fields_map_last_key(fields.drop_last(), key, j);
    }
}

/// Two lists of fields with the same keys and values, one for one, denote the same map.
proof fn lemma_fields_map_same(a: Seq<(String, JsonValue)>, b: Seq<(String, JsonValue)>)
    requires
        a.len() == b.len(),
        forall|i: int| 0 <= i < a.len() ==> a[i].0@ == b[i].0@ && a[i].1@ == b[i].1@,
    ensures
        fields_map(a) == fields_map(b),
    decreases a.len(),
{
    if a.len() > 0 {
        lemma_fields_map_same(a.drop_last(), b.drop_last());
    }
}

impl Payload {
    /// A copy of this payload.
    pub fn duplicate(&self) -> (p: Payload)
        ensures
            p@ == self@,
    {
        match self {
            Payload::Object(fields) => {
                let mut copy: Vec<(String, JsonValue)> = Vec::new();
                let mut i: usize = 0;
                while i < fields.len()
                    invariant
                        i <= fields@.len(),
                        copy@.len() == i,
                        forall|k: int|
                            0 <= k < i ==> #[trigger] copy@[k].0@ == fields@[k].0@ && copy@[k].1@
                                == fields@[k].1@,
                    decreases fields@.len() - i,
                {
                    copy.push((fields[i].0.clone(), fields[i].1.duplicate()));
                    i = i + 1;
                }
                proof {
                    lemma_fields_map_same(copy@, fields@);
                }
                Payload::Object(copy)
            },
            Payload::Other(t) => Payload::Other(t.clone()),
        }
    }

    /// The empty JSON object `{}`.
    pub fn empty_object() -> (p: Payload)
        ensures
            p@ == PayloadView::Object(Map::empty()),
    {
        Payload::Object(Vec::new())
    }

    /// Whether the payload is a JSON object.
    pub fn is_object(&self) -> (b: bool)
        ensures
            b == (self@ is Object),
    {
        match self {
            Payload::Object(_) => true,
            Payload::Other(_) => false,
        }
    }

    /// The value bound to `key`, if the payload is an object that binds it.
    pub fn get(&self, key: &String) -> (v: Option<&JsonValue>)
        ensures
            match self@ {
                PayloadView::Object(m) => if m.contains_key(key@) {
                    v matches Some(x) && x@ == m[key@]
                } else {
                    v is None
                },
                PayloadView::Other(_) => v is None,
            },
    {
        match self {
            Payload::Object(fields) => {
                let mut i = fields.len();
                while i > 0
                    invariant
                        self@ == PayloadView::Object(fields_map(fields@)),
                        i <= fields@.len(),
                        forall|k: int| i <= k < fields@.len() ==> fields@[k].0@ != key@,
                    decreases i,
                {
                    i = i - 1;
                    let same = fields[i].0 == *key;
                    if same {
                        proof {
                            assert(fields@[i as int].0@ == key@);
                            lemma_fields_map_last_key(fields@, key@, i as int);
                        }
                        return Some(&fields[i].1);
                    }
                }
                proof {
                    lemma_fields_map_no_key(fields@, key@);
                }
                None
            },
            Payload::Other(_) => None,
        }
    }

    /// `payload[key].as_str()`: the string bound to `key`, if there is one.
    pub fn get_str(&self, key: &String) -> (s: Option<String>)
        ensures
            match field_str(self@, key@) {
                Some(t) => s matches Some(x) && x@ == t,
                None => s is None,
            },
    {
        match self.get(key) {
            Some(JsonValue::Str(s)) => Some(s.clone()),
            _ => None,
        }
    }

    /// Binds `key` to `value` in an object payload, replacing any earlier binding.
    pub fn insert(&mut self, key: String, value: JsonValue)
        requires
            old(self)@ is Object,
        ensures
            final(self)@ == PayloadView::Object(old(self)@->Object_0.insert(key@, value@)),
    {
        match self {
            Payload::Object(fields) => {
                let ghost old_fields = fields@;
                fields.push((key, value));
                assert(fields@.drop_last() =~= old_fields);
            },
            Payload::Other(_) => {},
        }
    }
}

} // verus!
