//! Parsed JSON / TOML trees as plain library values, and the parser calls that produce them.
use vstd::prelude::*;

verus! {

/// Internal form of a JSON number (integers exactly, floats as IEEE-754 bit patterns).
#[derive(Clone, Copy, PartialEq, Eq, Debug, Structural)]
pub enum NumberRepr {
    PosInt(u64),
    NegInt(i64),
    Float(u64),
}

/// A JSON number: its exact form and its value as `f64` (bit pattern).
#[derive(Clone, Copy, PartialEq, Eq, Debug, Structural)]
pub struct JsonNumber {
    pub repr: NumberRepr,
    pub f64_bits: u64,
}

impl JsonNumber {
    pub open spec fn spec_as_u64(self) -> Option<u64> {
        match self.repr {
            NumberRepr::PosInt(n) => Some(n),
            _ => None,
        }
    }

    /// Value as `u64` when it is a non-negative integer.
    pub fn as_u64(&self) -> (r: Option<u64>)
        ensures
            r == self.spec_as_u64(),
    {
        match self.repr {
            NumberRepr::PosInt(n) => Some(n),
            _ => None,
        }
    }

    /// Value as an `f64` bit pattern.
    pub fn as_f64_bits(&self) -> (r: u64)
        ensures
            r == self.f64_bits,
    {
        self.f64_bits
    }
}

/// A parsed JSON value. Object members keep the parser's key order (sorted, unique).
#[derive(Debug)]
pub enum JsonValue {
    Null,
    Bool(bool),
    Number(JsonNumber),
    String(String),
    Array(Vec<JsonValue>),
    Object(Vec<(String, JsonValue)>),
}

/// Index of the first member named `key`, if any.
#[verifier::opaque]
pub open spec fn find_key(members: Seq<(String, JsonValue)>, key: Seq<char>) -> Option<int> {
    if exists|i: int| 0 <= i < members.len() && (#[trigger] members[i]).0@ == key {
        Some(
            choose|i: int|
                0 <= i < members.len() && (#[trigger] members[i]).0@ == key && forall|j: int|
                    0 <= j < i ==> members[j].0@ != key,
        )
    } else {
        None
    }
}

/// Value of member `key` of an object.
pub open spec fn obj_get(members: Seq<(String, JsonValue)>, key: Seq<char>) -> Option<JsonValue> {
    match find_key(members, key) {
        Some(i) => Some(members[i].1),
        None => None,
    }
}

/// An empty object has no members.
pub proof fn lemma_obj_get_empty(key: Seq<char>)
    ensures
        obj_get(Seq::<(String, JsonValue)>::empty(), key) is None,
{
    reveal(find_key);
}

/// What [`find_key`] returns: the first member with the name, or none when no member has it.
pub proof fn lemma_find_key_spec(m: Seq<(String, JsonValue)>, key: Seq<char>)
    ensures
        match find_key(m, key) {
            Some(i) => 0 <= i < m.len() && m[i].0@ == key && forall|j: int|
                0 <= j < i ==> m[j].0@ != key,
            None => forall|i: int| 0 <= i < m.len() ==> m[i].0@ != key,
        },
{
    reveal(find_key);
    if exists|i: int| 0 <= i < m.len() && (#[trigger] m[i]).0@ == key {
        let i0 = choose|i: int| 0 <= i < m.len() && (#[trigger] m[i]).0@ == key;
        lemma_first_index_exists(m, key, i0);
    }
}

proof fn lemma_first_index_exists(m: Seq<(String, JsonValue)>, key: Seq<char>, i0: int)
    requires
        0 <= i0 < m.len(),
        m[i0].0@ == key,
    ensures
        exists|i: int|
            0 <= i < m.len() && (#[trigger] m[i]).0@ == key && forall|j: int|
                0 <= j < i ==> m[j].0@ != key,
    decreases i0,
{
    if exists|j: int| 0 <= j < i0 && m[j].0@ == key {
        let j0 = choose|j: int| 0 <= j < i0 && m[j].0@ == key;
        lemma_first_index_exists(m, key, j0);
    } else {
        assert(forall|j: int| 0 <= j < i0 ==> m[j].0@ != key);
    }
}

/// A first member with the name is what [`find_key`] returns.
pub proof fn lemma_find_key_first(m: Seq<(String, JsonValue)>, key: Seq<char>, i: int)
    requires
        0 <= i < m.len(),
        m[i].0@ == key,
        forall|j: int| 0 <= j < i ==> m[j].0@ != key,
    ensures
        find_key(m, key) == Some(i),
{
    lemma_find_key_spec(m, key);
    match find_key(m, key) {
        Some(w) => {
            if w < i {
                assert(m[w].0@ == key);
            } else if w > i {
                assert(m[i].0@ != key);
            }
        },
        None => {
            assert(m[i].0@ != key);
        },
    }
}

/// Looking a name up after appending a member: an earlier member with that name wins, else the
/// new member when it has the name.
pub proof fn lemma_obj_get_push(m: Seq<(String, JsonValue)>, k: String, v: JsonValue, key: Seq<char>)
    ensures
        obj_get(m.push((k, v)), key) == (if obj_get(m, key) is Some {
            obj_get(m, key)
        } else if k@ == key {
            Some(v)
        } else {
            None::<JsonValue>
        }),
{
    let m2 = m.push((k, v));
    lemma_find_key_spec(m, key);
    lemma_find_key_spec(m2, key);
    match find_key(m, key) {
        Some(i) => {
            assert(m2[i] == m[i]);
            assert forall|j: int| 0 <= j < i implies m2[j].0@ != key by {
                assert(m2[j] == m[j]);
            }
            lemma_find_key_first(m2, key, i);
        },
        None => {
            if k@ == key {
                let n = m.len() as int;
                assert forall|j: int| 0 <= j < n implies m2[j].0@ != key by {
                    assert(m2[j] == m[j]);
                }
                lemma_find_key_first(m2, key, n);
            } else {
                match find_key(m2, key) {
                    Some(w) => {
                        if w < m.len() {
                            assert(m2[w] == m[w]);
                        }
                    },
                    None => {},
                }
            }
        },
    }
}

/// Position of the first member named `key`: every earlier member has another name.
pub fn obj_find(members: &Vec<(String, JsonValue)>, key: &str) -> (r: Option<usize>)
    ensures
        match r {
            Some(i) => i < members@.len() && members@[i as int].0@ == key@ && forall|j: int|
                0 <= j < i ==> members@[j].0@ != key@,
            None => forall|j: int| 0 <= j < members@.len() ==> members@[j].0@ != key@,
        },
        r matches Some(i) ==> find_key(members@, key@) == Some(i as int),
        r is None ==> find_key(members@, key@) is None,
{
    proof {
        reveal(find_key);
    }
    let mut i: usize = 0;
    while i < members.len()
        invariant
            0 <= i <= members@.len(),
            forall|j: int| 0 <= j < i ==> members@[j].0@ != key@,
        decreases members@.len() - i,
    {
        if crate::text::str_eq(members[i].0.as_str(), key) {
            proof {
                reveal(find_key);
                let w = choose|w: int|
                    0 <= w < members@.len() && (#[trigger] members@[w]).0@ == key@ && forall|j: int|
                        0 <= j < w ==> members@[j].0@ != key@;
                assert(members@[i as int].0@ == key@);
                if w < i {
                } else if w > i {
                    assert(members@[i as int].0@ != key@);
                }
                assert(w == i);
            }
            return Some(i);
        }
        i += 1;
    }
    None
}

/// Member `key` of an object, if present.
pub fn obj_lookup<'a>(members: &'a Vec<(String, JsonValue)>, key: &str) -> (r: Option<&'a JsonValue>)
    ensures
        match r {
            Some(v) => obj_get(members@, key@) == Some(*v),
            None => obj_get(members@, key@) is None,
        },
{
    match obj_find(members, key) {
        Some(i) => Some(&members[i].1),
        None => None,
    }
}

/// A parsed TOML value (floats as bit patterns with their display text, datetimes as text).
#[derive(Debug)]
pub enum TomlValue {
    String(String),
    Integer(i64),
    Float { bits: u64, display: String },
    Boolean(bool),
    Datetime(String),
    Array(Vec<TomlValue>),
    Table(Vec<(String, TomlValue)>),
}

#[verifier::external_type_specification]
#[verifier::external_body]
pub struct ExSerdeJsonValue(serde_json::Value);

#[verifier::external_type_specification]
#[verifier::external_body]
pub struct ExSerdeJsonNumber(serde_json::Number);

#[verifier::external_type_specification]
#[verifier::external_body]
pub struct ExTomlValue(toml::Value);

/// The tree `serde_json` parses `text` into, when `text` is a JSON document.
pub uninterp spec fn json_parse(text: Seq<char>) -> Option<JsonValue>;

/// The tree `toml` parses `text` into, when `text` is a TOML document.
pub uninterp spec fn toml_parse(text: Seq<char>) -> Option<TomlValue>;

/// `f64` value (bit pattern) that `serde_json` gives an integer number.
pub uninterp spec fn json_int_f64_bits(i: i64) -> u64;

/// `f64` value (bit pattern) that `serde_json` gives a non-negative integer number.
pub uninterp spec fn json_uint_f64_bits(u: u64) -> u64;

/// Converts a `serde_json::Value` tree into a [`JsonValue`], node for node.
#[verifier::external_body]
fn json_from_serde(v: &serde_json::Value) -> JsonValue {
    match v {
        serde_json::Value::Null => JsonValue::Null,
        serde_json::Value::Bool(b) => JsonValue::Bool(*b),
        serde_json::Value::Number(n) => JsonValue::Number(number_from_serde(n)),
        serde_json::Value::String(s) => JsonValue::String(s.clone()),
        serde_json::Value::Array(items) => JsonValue::Array(items.iter().map(json_from_serde).collect()),
        serde_json::Value::Object(map) => JsonValue::Object(
            map.iter().map(|(k, v)| (k.clone(), json_from_serde(v))).collect(),
        ),
    }
}

/// Converts a `serde_json::Number` into a [`JsonNumber`] (exact form and `as_f64` bits).
#[verifier::external_body]
fn number_from_serde(n: &serde_json::Number) -> JsonNumber {
    let repr = if let Some(u) = n.as_u64() {
        NumberRepr::PosInt(u)
    } else if let Some(i) = n.as_i64() {
        NumberRepr::NegInt(i)
    } else {
        NumberRepr::Float(n.as_f64().map_or(0, |x| x.to_bits()))
    };
    JsonNumber { repr, f64_bits: n.as_f64().map_or(0, |x| x.to_bits()) }
}

/// Converts a `toml::Value` tree into a [`TomlValue`], node for node.
#[verifier::external_body]
fn toml_from_lib(v: &toml::Value) -> TomlValue {
    match v {
        toml::Value::String(s) => TomlValue::String(s.clone()),
        toml::Value::Integer(i) => TomlValue::Integer(*i),
        toml::Value::Float(x) => TomlValue::Float { bits: x.to_bits(), display: x.to_string() },
        toml::Value::Boolean(b) => TomlValue::Boolean(*b),
        toml::Value::Datetime(dt) => TomlValue::Datetime(dt.to_string()),
        toml::Value::Array(items) => TomlValue::Array(items.iter().map(toml_from_lib).collect()),
        toml::Value::Table(t) => TomlValue::Table(
            t.iter().map(|(k, v)| (k.clone(), toml_from_lib(v))).collect(),
        ),
    }
}

/// `serde_json::from_str::<serde_json::Value>`: the parsed tree, or the parser's message.
///
/// Claims that the tree is [`json_parse`] of the text, and that parsing fails exactly when
/// [`json_parse`] has no tree; the message text is not stated.
#[verifier::external_body]
pub(crate) fn parse_json_text(text: &str) -> (r: Result<JsonValue, String>)
    ensures
        r is Ok <==> json_parse(text@) is Some,
        r matches Ok(v) ==> json_parse(text@) == Some(v),
{
    match serde_json::from_str::<serde_json::Value>(text) {
        Ok(v) => Ok(json_from_serde(&v)),
        Err(e) => Err(e.to_string()),
    }
}

/// `toml::from_str::<toml::Value>`: the parsed tree, or the parser's message.
///
/// Claims that the tree is [`toml_parse`] of the text, and that parsing fails exactly when
/// [`toml_parse`] has no tree; the message text is not stated.
#[verifier::external_body]
pub(crate) fn parse_toml_text(text: &str) -> (r: Result<TomlValue, String>)
    ensures
        r is Ok <==> toml_parse(text@) is Some,
        r matches Ok(v) ==> toml_parse(text@) == Some(v),
{
    match toml::from_str::<toml::Value>(text) {
        Ok(v) => Ok(toml_from_lib(&v)),
        Err(e) => Err(e.to_string()),
    }
}

/// `serde_json::Number::from(i)`: non-negative integers are `PosInt`, negative ones `NegInt`;
/// the `f64` value is [`json_int_f64_bits`] of `i`.
#[verifier::external_body]
pub(crate) fn json_number_from_i64(i: i64) -> (r: JsonNumber)
    ensures
        r.repr == (if i >= 0 {
            NumberRepr::PosInt(i as u64)
        } else {
            NumberRepr::NegInt(i)
        }),
        r.f64_bits == json_int_f64_bits(i),
{
    number_from_serde(&serde_json::Number::from(i))
}


/// `serde_json::Number::from(u)`: a `PosInt`, whose `f64` value is [`json_uint_f64_bits`] of `u`.
#[verifier::external_body]
pub(crate) fn json_number_from_u64(u: u64) -> (r: JsonNumber)
    ensures
        r.repr == NumberRepr::PosInt(u),
        r.f64_bits == json_uint_f64_bits(u),
{
    number_from_serde(&serde_json::Number::from(u))
}

/// JSON value of an `f64` (`serde_json::json!(x)`): a float number when finite, `null`
/// otherwise.
pub fn json_of_f64_bits(bits: u64) -> (r: JsonValue)
    ensures
        crate::float_bits::f64_is_finite(bits) ==> r == JsonValue::Number(
            JsonNumber { repr: NumberRepr::Float(bits), f64_bits: bits },
        ),
        !crate::float_bits::f64_is_finite(bits) ==> r == JsonValue::Null,
{
    if crate::float_bits::f64_bits_is_finite(bits) {
        JsonValue::Number(JsonNumber { repr: NumberRepr::Float(bits), f64_bits: bits })
    } else {
        JsonValue::Null
    }
}

} // verus!
