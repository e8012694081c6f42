//! A JSON value model for the records of a rollout, with its accessors.
//!
//! Parsing and printing JSON text is serde_json's work; the library holds the
//! parsed value as a tree of plain values and reads it with verified accessors.
use vstd::prelude::*;


verus! {

broadcast use vstd::std_specs::vec::group_vec_axioms;

/// A JSON value as a tree of plain values. A number keeps the text that
/// serde_json prints for it and, when it is an integer that fits, its `i64` value.
pub enum JsonValue {
    Null,
    Bool(bool),
    Number(String, Option<i64>),
    Str(String),
    Array(Vec<JsonValue>),
    Object(Vec<(String, JsonValue)>),
}

/// The mathematical form of a JSON value.
pub enum Json {
    Null,
    Bool(bool),
    Number(Seq<char>, Option<i64>),
    Str(Seq<char>),
    Array(Seq<Json>),
    Object(Seq<(Seq<char>, Json)>),
}

/// The mathematical form of a value.
pub open spec fn json_of(v: JsonValue) -> Json
    decreases v,
{
    match v {
        JsonValue::Null => Json::Null,
        JsonValue::Bool(b) => Json::Bool(b),
        JsonValue::Number(t, n) => Json::Number(t@, n),
        JsonValue::Str(s) => Json::Str(s@),
        JsonValue::Array(items) => Json::Array(
            Seq::new(
                items@.len(),
                |i: int|
                    if 0 <= i < items@.len() {
                        json_of(items@[i])
                    } else {
                        Json::Null
                    },
            ),
        ),
        JsonValue::Object(entries) => Json::Object(
            Seq::new(
                entries@.len(),
                |i: int|
                    if 0 <= i < entries@.len() {
                        (entries@[i].0@, json_of(entries@[i].1))
                    } else {
                        (Seq::empty(), Json::Null)
                    },
            ),
        ),
    }
}

impl View for JsonValue {
    type V = Json;

    open spec fn view(&self) -> Json {
        json_of(*self)
    }
}

/// The views of a sequence of values.
pub open spec fn json_views(v: Seq<JsonValue>) -> Seq<Json> {
    Seq::new(v.len(), |i: int| v[i]@)
}

/// The views of a sequence of object entries.
pub open spec fn entry_views(v: Seq<(String, JsonValue)>) -> Seq<(Seq<char>, Json)> {
    Seq::new(v.len(), |i: int| (v[i].0@, v[i].1@))
}

// ---------------------------------------------------------------------------
// Specifications of the accessors
// ---------------------------------------------------------------------------

/// The value of the first entry at or after `i` with key `key`.
pub open spec fn entries_find(entries: Seq<(Seq<char>, Json)>, key: Seq<char>, i: int) -> Option<
    Json,
>
    decreases entries.len() - i,
{
    if i < 0 || i >= entries.len() {
        None
    } else if entries[i].0 == key {
        Some(entries[i].1)
    } else {
        entries_find(entries, key, i + 1)
    }
}

/// `Value::get(key)`: the member `key` of an object; nothing for other values.
pub open spec fn jget(j: Json, key: Seq<char>) -> Option<Json> {
    match j {
        Json::Object(entries) => entries_find(entries, key, 0),
        _ => None,
    }
}

/// `Value::as_str`.
pub open spec fn jstr(j: Json) -> Option<Seq<char>> {
    match j {
        Json::Str(s) => Some(s),
        _ => None,
    }
}

/// `Value::as_bool`.
pub open spec fn jbool(j: Json) -> Option<bool> {
    match j {
        Json::Bool(b) => Some(b),
        _ => None,
    }
}

/// `Value::as_i64`.
pub open spec fn ji64(j: Json) -> Option<i64> {
    match j {
        Json::Number(_, n) => n,
        _ => None,
    }
}

/// `value.get(key).and_then(Value::as_str)`.
pub open spec fn jget_str(j: Json, key: Seq<char>) -> Option<Seq<char>> {
    match jget(j, key) {
        Some(v) => jstr(v),
        None => None,
    }
}

/// `value.get(key).and_then(Value::as_str).unwrap_or(default)`.
pub open spec fn jget_str_or(j: Json, key: Seq<char>, default: Seq<char>) -> Seq<char> {
    match jget_str(j, key) {
        Some(s) => s,
        None => default,
    }
}

/// Whether the value is an object.
pub open spec fn is_object(j: Json) -> bool {
    j is Object
}

// ---------------------------------------------------------------------------
// Names for what serde_json computes
// ---------------------------------------------------------------------------

/// What `serde_json::from_str::<Value>` makes of a text: the value, or its error message.
pub uninterp spec fn spec_parse_json(text: Seq<char>) -> Result<Json, Seq<char>>;

/// The text that `serde_json::to_string_pretty` prints for a value.
pub uninterp spec fn spec_json_pretty(j: Json) -> Seq<char>;

/// The text that `serde_json::to_string` prints for a value, when it succeeds.
pub uninterp spec fn spec_json_compact(j: Json) -> Option<Seq<char>>;

#[verifier::external_type_specification]
#[verifier::external_body]
pub struct ExSerdeValue(serde_json::Value);

/// Converts a serde_json value into the library's tree, one node for one node.
#[verifier::external_body]
fn json_from_serde(v: serde_json::Value) -> JsonValue {
    match v {
        serde_json::Value::Null => JsonValue::Null,
        serde_json::Value::Bool(b) => JsonValue::Bool(b),
        serde_json::Value::Number(n) => JsonValue::Number(n.to_string(), n.as_i64()),
        serde_json::Value::String(s) => JsonValue::Str(s),
        serde_json::Value::Array(a) => JsonValue::Array(a.into_iter().map(json_from_serde).collect()),
        serde_json::Value::Object(m) => JsonValue::Object(
            m.into_iter().map(|(k, x)| (k, json_from_serde(x))).collect(),
        ),
    }
}

/// Converts the library's tree back into a serde_json value, one node for one node.
#[verifier::external_body]
fn json_to_serde(v: &JsonValue) -> serde_json::Value {
    match v {
        JsonValue::Null => serde_json::Value::Null,
        JsonValue::Bool(b) => serde_json::Value::Bool(*b),
        JsonValue::Number(t, _) => t.parse().map(serde_json::Value::Number).unwrap_or_default(),
        JsonValue::Str(s) => serde_json::Value::String(s.clone()),
        JsonValue::Array(a) => serde_json::Value::Array(a.iter().map(json_to_serde).collect()),
        JsonValue::Object(m) => serde_json::Value::Object(
            m.iter().map(|(k, x)| (k.clone(), json_to_serde(x))).collect(),
        ),
    }
}

/// Parses a JSON text with `serde_json::from_str::<serde_json::Value>`.
/// Claims only that the outcome is the one that serde_json gives for this text,
/// named by `spec_parse_json`.
#[verifier::external_body]
pub(crate) fn parse_json(text: &str) -> (r: Result<JsonValue, String>)
    ensures
        match r {
            Ok(v) => spec_parse_json(text@) == Ok::<Json, Seq<char>>(v@),
            Err(e) => spec_parse_json(text@) == Err::<Json, Seq<char>>(e@),
        },
{
    match serde_json::from_str::<serde_json::Value>(text) {
        Ok(v) => Ok(json_from_serde(v)),
        Err(e) => Err(e.to_string()),
    }
}

/// Prints a value with `serde_json::to_string_pretty` (falling back to its
/// `Display`, as printing a value does not fail). Claims only that the text is
/// the one named by `spec_json_pretty` for the value.
#[verifier::external_body]
pub(crate) fn json_pretty(v: &JsonValue) -> (r: String)
    ensures
        r@ == spec_json_pretty(v@),
{
    let value = json_to_serde(v);
    match serde_json::to_string_pretty(&value) {
        Ok(s) => s,
        Err(_) => value.to_string(),
    }
}

/// Prints a value with `serde_json::to_string`. Claims only that the outcome is
/// the one named by `spec_json_compact` for the value.
#[verifier::external_body]
pub(crate) fn json_compact(v: &JsonValue) -> (r: Option<String>)
    ensures
        match r {
            Some(s) => spec_json_compact(v@) == Some(s@),
            None => spec_json_compact(v@) is None,
        },
{
    serde_json::to_string(&json_to_serde(v)).ok()
}

// ---------------------------------------------------------------------------
// Lemmas
// ---------------------------------------------------------------------------

/// The view of an array is the views of its items.
pub proof fn lemma_array_view(items: Vec<JsonValue>)
    ensures
        JsonValue::Array(items)@ == Json::Array(json_views(items@)),
{
    let j = json_of(JsonValue::Array(items));
    assert(j is Array);
    let s = j->Array_0;
    assert(s =~= json_views(items@));
}

/// The view of an object is the views of its entries.
pub proof fn lemma_object_view(entries: Vec<(String, JsonValue)>)
    ensures
        JsonValue::Object(entries)@ == Json::Object(entry_views(entries@)),
{
    let j = json_of(JsonValue::Object(entries));
    assert(j is Object);
    let s = j->Object_0;
    assert(s =~= entry_views(entries@));
}

// ---------------------------------------------------------------------------
// Accessors
// ---------------------------------------------------------------------------

/// Whether two texts are equal.
pub fn text_eq(a: &str, b: &str) -> (r: bool)
    ensures
        r == (a@ == b@),
{
    let sa = String::from_str(a);
    let sb = String::from_str(b);
    sa.eq(&sb)
}

impl JsonValue {
    /// `Value::get(key)`.
    pub fn get(&self, key: &str) -> (r: Option<&JsonValue>)
        ensures
            match r {
                Some(v) => jget(self@, key@) == Some(v@),
                None => jget(self@, key@) is None,
            },
    {
        match self {
            JsonValue::Object(entries) => {
                proof {
                    lemma_object_view(*entries);
                }
                let ghost es = entry_views(entries@);
                let mut i: usize = 0;
                while i < entries.len()
                    invariant
                        self@ == Json::Object(es),
                        es == entry_views(entries@),
                        i <= entries@.len(),
                        entries_find(es, key@, i as int) == entries_find(es, key@, 0),
                    decreases entries.len() - i,
                {
                    if text_eq(entries[i].0.as_str(), key) {
                        return Some(&entries[i].1);
                    }
                    i = i + 1;
                }
                None
            },
            _ => None,
        }
    }

    /// `Value::as_str`.
    pub fn as_str(&self) -> (r: Option<&str>)
        ensures
            match r {
                Some(s) => jstr(self@) == Some(s@),
                None => jstr(self@) is None,
            },
    {
        match self {
            JsonValue::Str(s) => Some(s.as_str()),
            _ => None,
        }
    }

    /// `Value::as_bool`.
    pub fn as_bool(&self) -> (r: Option<bool>)
        ensures
            r == jbool(self@),
    {
        match self {
            JsonValue::Bool(b) => Some(*b),
            _ => None,
        }
    }

    /// `Value::as_i64`.
    pub fn as_i64(&self) -> (r: Option<i64>)
        ensures
            r == ji64(self@),
    {
        match self {
            JsonValue::Number(_, n) => *n,
            _ => None,
        }
    }

    /// `Value::is_null`.
    pub fn is_null(&self) -> (r: bool)
        ensures
            r == (self@ is Null),
    {
        match self {
            JsonValue::Null => true,
            _ => false,
        }
    }

    /// Whether the value is an object.
    pub fn is_object(&self) -> (r: bool)
        ensures
            r == (self@ is Object),
    {
        match self {
            JsonValue::Object(_) => true,
            _ => false,
        }
    }

    /// `Value::as_array`.
    pub fn as_array(&self) -> (r: Option<&Vec<JsonValue>>)
        ensures
            match r {
                Some(items) => self@ == Json::Array(json_views(items@)),
                None => !(self@ is Array),
            },
    {
        match self {
            JsonValue::Array(items) => {
                proof {
                    lemma_array_view(*items);
                }
                Some(items)
            },
            _ => None,
        }
    }

    /// `Value::as_object`, as the list of entries.
    pub fn as_object(&self) -> (r: Option<&Vec<(String, JsonValue)>>)
        ensures
            match r {
                Some(entries) => self@ == Json::Object(entry_views(entries@)),
                None => !(self@ is Object),
            },
    {
        match self {
            JsonValue::Object(entries) => {
                proof {
                    lemma_object_view(*entries);
                }
                Some(entries)
            },
            _ => None,
        }
    }

    /// A copy of the value.
    #[verifier::loop_isolation(false)]
    pub fn deep_clone(&self) -> (r: JsonValue)
        ensures
            r@ == self@,
        decreases self,
    {
        match self {
            JsonValue::Null => JsonValue::Null,
            JsonValue::Bool(b) => JsonValue::Bool(*b),
            JsonValue::Number(t, n) => JsonValue::Number(t.clone(), *n),
            JsonValue::Str(s) => JsonValue::Str(s.clone()),
            JsonValue::Array(items) => {
                let mut out: Vec<JsonValue> = Vec::new();
                let mut i: usize = 0;
                while i < items.len()
                    invariant
                        i <= items@.len(),
                        json_views(out@) == json_views(items@).take(i as int),
                    decreases items.len() - i,
                {
                    proof {
                        assert(decreases_to!(*self => (*self)->Array_0));
                        assert(decreases_to!(*items => items@));
                        assert(decreases_to!(items@ => items@[i as int]));
                    }
                    let c = items[i].deep_clone();
                    let ghost old_out = out@;
                    out.push(c);
                    assert(json_views(out@) =~= json_views(old_out).push(c@));
                    i = i + 1;
                    assert(json_views(out@) =~= json_views(items@).take(i as int));
                }
                proof {
                    lemma_array_view(*items);
                    lemma_array_view(out);
                    assert(json_views(items@).take(i as int) =~= json_views(items@));
                }
                JsonValue::Array(out)
            },
            JsonValue::Object(entries) => {
                let mut out: Vec<(String, JsonValue)> = Vec::new();
                let mut i: usize = 0;
                while i < entries.len()
                    invariant
                        i <= entries@.len(),
                        entry_views(out@) == entry_views(entries@).take(i as int),
                    decreases entries.len() - i,
                {
                    let k = entries[i].0.clone();
                    proof {
                        assert(decreases_to!(*self => (*self)->Object_0));
                        assert(decreases_to!(*entries => entries@));
                        assert(decreases_to!(entries@ => entries@[i as int]));
                        assert(decreases_to!(entries@[i as int] => entries@[i as int].1));
                    }
                    let c = entries[i].1.deep_clone();
                    let ghost old_out = out@;
                    out.push((k, c));
                    assert(entry_views(out@) =~= entry_views(old_out).push((k@, c@)));
                    i = i + 1;
                    assert(entry_views(out@) =~= entry_views(entries@).take(i as int));
                }
                proof {
                    lemma_object_view(*entries);
                    lemma_object_view(out);
                    assert(entry_views(entries@).take(i as int) =~= entry_views(entries@));
                }
                JsonValue::Object(out)
            },
        }
    }
}

} // verus!
