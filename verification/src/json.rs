//! JSON values.
//!
//! [`JsonValue`] is the JSON value that the rest of the library reads and builds.
//! Its view is [`Json`]: arrays are sequences, objects are maps. Reading and
//! writing JSON text is `serde_json`'s work.

use vstd::prelude::*;

use crate::text;

verus! {

/// A JSON value as mathematics has it.
pub enum Json {
    Null,
    Bool(bool),
    Int(int),
    /// A number with a fraction or an exponent, by its text.
    Float(Seq<char>),
    Str(Seq<char>),
    Arr(Seq<Json>),
    Obj(Map<Seq<char>, Json>),
}

/// The type `serde_json::Value`.
#[verifier::external_type_specification]
#[verifier::external_body]
pub struct ExJsonValue(serde_json::Value);

/// What a `serde_json::Value` holds.
pub uninterp spec fn json_model(v: serde_json::Value) -> Json;

/// What `serde_json::from_slice` reads from a text: nothing where it is not JSON.
pub uninterp spec fn json_parsed(b: Seq<u8>) -> Option<Json>;

/// What `serde_json::from_slice` says of a text that is not JSON.
pub uninterp spec fn json_error(b: Seq<u8>) -> Seq<char>;

/// The compact text that `serde_json::to_string` writes for a value.
pub uninterp spec fn json_text(v: Json) -> Seq<char>;

/// The JSON string literal that `serde_json::to_string` writes for a text.
pub uninterp spec fn json_string(s: Seq<char>) -> Seq<char>;

/// No number with a fraction or an exponent, and at most `depth` levels of
/// arrays and objects.
pub open spec fn plain(v: Json, depth: nat) -> bool
    decreases depth,
{
    match v {
        Json::Float(_) => false,
        Json::Arr(s) => depth > 0 && forall|i: int|
            0 <= i < s.len() ==> plain(#[trigger] s[i], (depth - 1) as nat),
        Json::Obj(m) => depth > 0 && forall|k: Seq<char>| #[trigger]
            m.dom().contains(k) ==> plain(m[k], (depth - 1) as nat),
        _ => true,
    }
}

/// One level of a `serde_json::Value`.
pub enum Shape<'a> {
    Null,
    Bool(bool),
    UInt(u64),
    NegInt(i64),
    Float,
    Str(&'a String),
    Arr(&'a Vec<serde_json::Value>),
    Obj(Vec<(&'a String, &'a serde_json::Value)>),
}

/// What a list of members amounts to: of two of one name the later stands.
pub open spec fn outside_members(s: Seq<(&String, &serde_json::Value)>) -> Map<Seq<char>, Json>
    decreases s.len(),
{
    if s.len() == 0 {
        Map::empty()
    } else {
        outside_members(s.drop_last()).insert(s.last().0@, json_model(*s.last().1))
    }
}

/// No two members have one name.
pub open spec fn distinct_names(s: Seq<(&String, &serde_json::Value)>) -> bool {
    forall|a: int, b: int| 0 <= a < b < s.len() ==> s[a].0@ != s[b].0@
}

/// What the parts of one level amount to.
pub open spec fn shape_is(s: Shape, m: Json) -> bool {
    match s {
        Shape::Null => m == Json::Null,
        Shape::Bool(b) => m == Json::Bool(b),
        Shape::UInt(n) => m == Json::Int(n as int),
        Shape::NegInt(n) => m == Json::Int(n as int),
        Shape::Float => m is Float,
        Shape::Str(t) => m == Json::Str(t@),
        Shape::Arr(a) => m == Json::Arr(a@.map_values(|v: serde_json::Value| json_model(v))),
        Shape::Obj(p) => m == Json::Obj(outside_members(p@)) && distinct_names(p@),
    }
}

/// `serde_json::from_slice` into a `serde_json::Value`: the value that the text
/// stands for, or what the crate says is wrong with it.
#[verifier::external_body]
fn json_parse(b: &[u8]) -> (r: Result<serde_json::Value, String>)
    ensures
        match r {
            Ok(v) => json_parsed(b@) == Some(json_model(v)),
            Err(e) => json_parsed(b@) is None && e@ == json_error(b@),
        },
{
    serde_json::from_slice(b).map_err(|e| e.to_string())
}

/// The variants of `serde_json::Value`, taken apart; `Number::as_u64` and
/// `Number::as_i64` tell integers from other numbers.
#[verifier::external_body]
fn json_shape<'a>(v: &'a serde_json::Value) -> (r: Shape<'a>)
    ensures
        shape_is(r, json_model(*v)),
{
    match v {
        serde_json::Value::Null => Shape::Null,
        serde_json::Value::Bool(b) => Shape::Bool(*b),
        serde_json::Value::Number(n) => match (n.as_u64(), n.as_i64()) {
            (Some(u), _) => Shape::UInt(u),
            (None, Some(i)) => Shape::NegInt(i),
            (None, None) => Shape::Float,
        },
        serde_json::Value::String(s) => Shape::Str(s),
        serde_json::Value::Array(a) => Shape::Arr(a),
        serde_json::Value::Object(m) => Shape::Obj(m.iter().collect()),
    }
}

/// The parts that a `serde_json::Value` is made from.
pub enum Parts {
    Null,
    Bool(bool),
    UInt(u64),
    NegInt(i64),
    Str(String),
    Arr(Vec<serde_json::Value>),
    Obj(Vec<(String, serde_json::Value)>),
}

/// What a list of members amounts to: of two of one name the later stands.
pub open spec fn part_members(s: Seq<(String, serde_json::Value)>) -> Map<Seq<char>, Json>
    decreases s.len(),
{
    if s.len() == 0 {
        Map::empty()
    } else {
        part_members(s.drop_last()).insert(s.last().0@, json_model(s.last().1))
    }
}

/// What a value made from these parts holds.
pub open spec fn parts_model(p: Parts) -> Json {
    match p {
        Parts::Null => Json::Null,
        Parts::Bool(b) => Json::Bool(b),
        Parts::UInt(n) => Json::Int(n as int),
        Parts::NegInt(n) => Json::Int(n as int),
        Parts::Str(s) => Json::Str(s@),
        Parts::Arr(a) => Json::Arr(a@.map_values(|v: serde_json::Value| json_model(v))),
        Parts::Obj(m) => Json::Obj(part_members(m@)),
    }
}

/// The variants of `serde_json::Value`, put together.
#[verifier::external_body]
fn json_build(p: Parts) -> (r: serde_json::Value)
    ensures
        json_model(r) == parts_model(p),
{
    match p {
        Parts::Null => serde_json::Value::Null,
        Parts::Bool(b) => serde_json::Value::Bool(b),
        Parts::UInt(n) => serde_json::Value::from(n),
        Parts::NegInt(n) => serde_json::Value::from(n),
        Parts::Str(s) => serde_json::Value::String(s),
        Parts::Arr(a) => serde_json::Value::Array(a),
        Parts::Obj(m) => serde_json::Value::Object(m.into_iter().collect()),
    }
}

/// `serde_json::Value::clone`: the copy holds what the value holds.
#[verifier::external_body]
fn json_clone(v: &serde_json::Value) -> (r: serde_json::Value)
    ensures
        json_model(r) == json_model(*v),
{
    v.clone()
}

/// `serde_json::to_string` of a `serde_json::Value`: its compact text. A number
/// with a fraction or an exponent is written as its text. The text of a value
/// without such numbers, of at most 127 levels, reads as that value.
#[verifier::external_body]
fn json_to_text(v: &serde_json::Value) -> (r: String)
    ensures
        r@ == json_text(json_model(*v)),
        json_model(*v) is Float ==> json_model(*v) == Json::Float(r@),
        plain(json_model(*v), 127) ==> json_parsed(vstd::utf8::encode_utf8(r@)) == Some(json_model(*v)),
{
    serde_json::to_string(v).unwrap_or_default()
}

/// `serde_json::to_string` of a text: a JSON string literal.
#[verifier::external_body]
fn json_quote(s: &str) -> (r: String)
    ensures
        r@ == json_string(s@),
{
    serde_json::to_string(s).unwrap_or_default()
}

/// A number with a fraction or an exponent.
pub struct Fraction {
    v: serde_json::Value,
}

impl Fraction {
    /// What is held is such a number.
    #[verifier::type_invariant]
    spec fn well_formed(self) -> bool {
        json_model(self.v) is Float
    }

    /// The text of the number.
    pub closed spec fn view(&self) -> Seq<char> {
        json_model(self.v)->Float_0
    }

    /// The text of the number.
    pub fn text(&self) -> (r: String)
        ensures
            r@ == self@,
    {
        proof {
            use_type_invariant(self);
        }
        json_to_text(&self.v)
    }
}

/// A JSON value.
pub enum JsonValue {
    Null,
    Bool(bool),
    UInt(u64),
    NegInt(i64),
    /// A number with a fraction or an exponent.
    Float(Fraction),
    Text(String),
    Array(Vec<JsonValue>),
    /// Of two members of one name the later stands.
    Object(Vec<(String, JsonValue)>),
}

impl JsonValue {
    /// What the value holds.
    pub open spec fn view(&self) -> Json
        decreases self,
    {
        match self {
            JsonValue::Null => Json::Null,
            JsonValue::Bool(b) => Json::Bool(*b),
            JsonValue::UInt(n) => Json::Int(*n as int),
            JsonValue::NegInt(n) => Json::Int(*n as int),
            JsonValue::Float(f) => Json::Float(f@),
            JsonValue::Text(s) => Json::Str(s@),
            JsonValue::Array(a) => Json::Arr(elements(a@)),
            JsonValue::Object(m) => Json::Obj(members(m@)),
        }
    }
}

/// What the elements of an array hold.
pub open spec fn elements(s: Seq<JsonValue>) -> Seq<Json>
    decreases s,
{
    if s.len() == 0 {
        Seq::empty()
    } else {
        elements(s.drop_last()).push(s.last().view())
    }
}

/// What the members of an object hold.
pub open spec fn members(s: Seq<(String, JsonValue)>) -> Map<Seq<char>, Json>
    decreases s,
{
    if s.len() == 0 {
        Map::empty()
    } else {
        members(s.drop_last()).insert(s.last().0@, s.last().1.view())
    }
}

/// Each element holds what it holds by itself.
pub proof fn lemma_elements(s: Seq<JsonValue>)
    ensures
        elements(s).len() == s.len(),
        forall|i: int| 0 <= i < s.len() ==> #[trigger] elements(s)[i] == s[i].view(),
    decreases s.len(),
{
    if s.len() > 0 {
        lemma_elements(s.drop_last());
        assert forall|i: int| 0 <= i < s.len() implies #[trigger] elements(s)[i]
            == s[i].view() by {
            if i < s.len() - 1 {
                assert(elements(s.drop_last())[i] == s.drop_last()[i].view());
            }
        }
    }
}

/// The members of an object are finitely many, and each is held by a pair.
pub proof fn lemma_members(s: Seq<(String, JsonValue)>)
    ensures
        members(s).dom().finite(),
    decreases s.len(),
{
    if s.len() > 0 {
        lemma_members(s.drop_last());
    }
}

proof fn lemma_outside_members(s: Seq<(&String, &serde_json::Value)>, i: int)
    requires
        0 <= i < s.len(),
        distinct_names(s),
    ensures
        outside_members(s).dom().finite(),
        outside_members(s).dom().contains(s[i].0@),
        outside_members(s)[s[i].0@] == json_model(*s[i].1),
    decreases s.len(),
{
    let t = s.drop_last();
    if i < s.len() - 1 {
        lemma_outside_members(t, i);
        assert(t[i] == s[i]);
    } else if t.len() > 0 {
        lemma_outside_members(t, 0);
    } else {
        assert(outside_members(t) =~= Map::empty());
    }
}

/// A member of an object, where there is one of that name.
pub open spec fn json_get(j: Json, name: Seq<char>) -> Option<Json> {
    match j {
        Json::Obj(m) => if m.dom().contains(name) {
            Some(m[name])
        } else {
            None
        },
        _ => None,
    }
}

/// The text of a string value.
pub open spec fn json_str(j: Json) -> Option<Seq<char>> {
    match j {
        Json::Str(s) => Some(s),
        _ => None,
    }
}

/// The value of an integer that fits 64 bits with a sign.
pub open spec fn json_i64(j: Json) -> Option<i64> {
    match j {
        Json::Int(n) => if i64::MIN <= n <= i64::MAX {
            Some(n as i64)
        } else {
            None
        },
        _ => None,
    }
}

/// The value of an integer that fits 64 bits without a sign.
pub open spec fn json_u64(j: Json) -> Option<u64> {
    match j {
        Json::Int(n) => if 0 <= n <= u64::MAX {
            Some(n as u64)
        } else {
            None
        },
        _ => None,
    }
}

/// The text of a string member.
pub open spec fn str_member(j: Json, name: Seq<char>) -> Option<Seq<char>> {
    match json_get(j, name) {
        Some(v) => json_str(v),
        None => None,
    }
}

/// The value of a signed integer member.
pub open spec fn i64_member(j: Json, name: Seq<char>) -> Option<i64> {
    match json_get(j, name) {
        Some(v) => json_i64(v),
        None => None,
    }
}

/// The value of an unsigned integer member.
pub open spec fn u64_member(j: Json, name: Seq<char>) -> Option<u64> {
    match json_get(j, name) {
        Some(v) => json_u64(v),
        None => None,
    }
}

fn from_outside(v: &serde_json::Value) -> (r: JsonValue)
    ensures
        r@ == json_model(*v),
    decreases json_model(*v),
{
    match json_shape(v) {
        Shape::Null => JsonValue::Null,
        Shape::Bool(b) => JsonValue::Bool(b),
        Shape::UInt(n) => JsonValue::UInt(n),
        Shape::NegInt(n) => JsonValue::NegInt(n),
        Shape::Float => JsonValue::Float(Fraction { v: json_clone(v) }),
        Shape::Str(s) => JsonValue::Text(s.clone()),
        Shape::Arr(a) => {
            let mut out: Vec<JsonValue> = Vec::new();
            let ghost model = a@.map_values(|x: serde_json::Value| json_model(x));
            let mut i: usize = 0;
            while i < a.len()
                invariant
                    i <= a@.len(),
                    model == a@.map_values(|x: serde_json::Value| json_model(x)),
                    json_model(*v) == Json::Arr(model),
                    elements(out@) == model.take(i as int),
                decreases a@.len() - i,
            {
                proof {
                    assert(model[i as int] == json_model(a@[i as int]));
                    assert(decreases_to!(json_model(*v) => json_model(*v)->Arr_0));
                    assert(decreases_to!(model => model[i as int]));
                }
                let item = from_outside(&a[i]);
                let ghost before = out@;
                out.push(item);
                i += 1;
                proof {
                    assert(out@.drop_last() =~= before);
                    assert(elements(out@) =~= model.take(i as int));
                }
            }
            proof {
                assert(model.take(a@.len() as int) =~= model);
            }
            JsonValue::Array(out)
        },
        Shape::Obj(p) => {
            let mut out: Vec<(String, JsonValue)> = Vec::new();
            let mut i: usize = 0;
            while i < p.len()
                invariant
                    i <= p@.len(),
                    json_model(*v) == Json::Obj(outside_members(p@)),
                    distinct_names(p@),
                    members(out@) == outside_members(p@.take(i as int)),
                decreases p@.len() - i,
            {
                proof {
                    lemma_outside_members(p@, i as int);
                    let m = outside_members(p@);
                    assert(decreases_to!(json_model(*v) => json_model(*v)->Obj_0));
                    assert(decreases_to!(m => m[p@[i as int].0@]));
                }
                let item = from_outside(p[i].1);
                let ghost before = out@;
                out.push((p[i].0.clone(), item));
                i += 1;
                proof {
                    assert(out@.drop_last() =~= before);
                    assert(p@.take(i as int).drop_last() =~= p@.take(i - 1));
                }
            }
            proof {
                assert(p@.take(p@.len() as int) =~= p@);
            }
            JsonValue::Object(out)
        },
    }
}

fn to_outside(v: &JsonValue) -> (r: serde_json::Value)
    ensures
        json_model(r) == v@,
    decreases v,
{
    match v {
        JsonValue::Null => json_build(Parts::Null),
        JsonValue::Bool(b) => json_build(Parts::Bool(*b)),
        JsonValue::UInt(n) => json_build(Parts::UInt(*n)),
        JsonValue::NegInt(n) => json_build(Parts::NegInt(*n)),
        JsonValue::Float(f) => {
            proof {
                use_type_invariant(f);
            }
            json_clone(&f.v)
        },
        JsonValue::Text(s) => json_build(Parts::Str(s.clone())),
        JsonValue::Array(a) => {
            let mut out: Vec<serde_json::Value> = Vec::new();
            let mut i: usize = 0;
            while i < a.len()
                invariant
                    i <= a@.len(),
                    v == JsonValue::Array(*a),
                    out@.len() == i,
                    forall|j: int| 0 <= j < i ==> json_model(#[trigger] out@[j]) == a@[j]@,
                decreases a@.len() - i,
            {
                proof {
                    assert(decreases_to!(v => v->Array_0));
                    assert(decreases_to!(v->Array_0 => v->Array_0@));
                    assert(decreases_to!(a@ => a@[i as int]));
                }
                let item = to_outside(&a[i]);
                out.push(item);
                i += 1;
            }
            proof {
                lemma_elements(a@);
                assert(out@.map_values(|x: serde_json::Value| json_model(x)) =~= elements(a@));
            }
            json_build(Parts::Arr(out))
        },
        JsonValue::Object(m) => {
            let mut out: Vec<(String, serde_json::Value)> = Vec::new();
            let mut i: usize = 0;
            while i < m.len()
                invariant
                    i <= m@.len(),
                    v == JsonValue::Object(*m),
                    part_members(out@) == members(m@.take(i as int)),
                decreases m@.len() - i,
            {
                proof {
                    assert(decreases_to!(v => v->Object_0));
                    assert(decreases_to!(v->Object_0 => v->Object_0@));
                    assert(decreases_to!(m@ => m@[i as int]));
                    assert(decreases_to!(m@[i as int] => m@[i as int].1));
                }
                let item = to_outside(&m[i].1);
                let ghost before = out@;
                out.push((m[i].0.clone(), item));
                i += 1;
                proof {
                    assert(out@.drop_last() =~= before);
                    assert(m@.take(i as int).drop_last() =~= m@.take(i - 1));
                }
            }
            proof {
                assert(m@.take(m@.len() as int) =~= m@);
            }
            json_build(Parts::Obj(out))
        },
    }
}

/// Reads a JSON text.
pub fn parse(b: &[u8]) -> (r: Result<JsonValue, String>)
    ensures
        match r {
            Ok(v) => json_parsed(b@) == Some(v@),
            Err(e) => json_parsed(b@) is None && e@ == json_error(b@),
        },
{
    match json_parse(b) {
        Ok(v) => Ok(from_outside(&v)),
        Err(e) => Err(e),
    }
}

/// A JSON string literal that stands for `s`.
pub fn quote(s: &str) -> (r: String)
    ensures
        r@ == json_string(s@),
{
    json_quote(s)
}

impl JsonValue {
    /// The compact JSON text of the value.
    pub fn render(&self) -> (r: String)
        ensures
            r@ == json_text(self@),
            plain(self@, 127) ==> json_parsed(vstd::utf8::encode_utf8(r@)) == Some(self@),
    {
        let v = to_outside(self);
        json_to_text(&v)
    }

    /// A value that holds the same.
    pub fn copy(&self) -> (r: JsonValue)
        ensures
            r@ == self@,
    {
        let v = to_outside(self);
        from_outside(&v)
    }

    /// A string value.
    pub fn string(s: &str) -> (r: JsonValue)
        ensures
            r@ == Json::Str(s@),
    {
        JsonValue::Text(s.to_owned())
    }

    /// A number.
    pub fn number(n: u64) -> (r: JsonValue)
        ensures
            r@ == Json::Int(n as int),
    {
        JsonValue::UInt(n)
    }

    /// An object without members.
    pub fn object() -> (r: JsonValue)
        ensures
            r is Object,
            r@ == Json::Obj(Map::empty()),
    {
        let none: Vec<(String, JsonValue)> = Vec::new();
        JsonValue::Object(none)
    }

    /// The object with one member more, or another value for a member.
    pub fn with(self, name: &str, value: JsonValue) -> (r: JsonValue)
        requires
            self is Object,
        ensures
            r is Object,
            r@ == Json::Obj(self@->Obj_0.insert(name@, value@)),
    {
        match self {
            JsonValue::Object(m) => {
                let mut m = m;
                let ghost before = m@;
                m.push((name.to_owned(), value));
                proof {
                    assert(m@.drop_last() =~= before);
                }
                JsonValue::Object(m)
            },
            other => other,
        }
    }

    /// The member of an object that has the given name.
    pub fn get(&self, name: &str) -> (r: Option<&JsonValue>)
        ensures
            match r {
                Some(v) => json_get(self@, name@) == Some(v@),
                None => json_get(self@, name@) is None,
            },
            r matches Some(v) ==> decreases_to!(*self => *v),
    {
        match self {
            JsonValue::Object(m) => {
                let mut i: usize = m.len();
                proof {
                    assert(m@.take(m@.len() as int) =~= m@);
                }
                while i > 0
                    invariant
                        i <= m@.len(),
                        *self == JsonValue::Object(*m),
                        members(m@).dom().contains(name@) == members(
                            m@.take(i as int),
                        ).dom().contains(name@),
                        members(m@).dom().contains(name@) ==> members(m@)[name@] == members(
                            m@.take(i as int),
                        )[name@],
                    decreases i,
                {
                    proof {
                        assert(m@.take(i as int).drop_last() =~= m@.take(i - 1));
                        assert(m@.take(i as int).last() == m@[i - 1]);
                    }
                    if text::same(m[i - 1].0.as_str(), name) {
                        proof {
                            assert(decreases_to!(*self => m@));
                            assert(decreases_to!(m@ => m@[i - 1]));
                            assert(decreases_to!(m@[i - 1] => m@[i - 1].1));
                        }
                        return Some(&m[i - 1].1);
                    }
                    i -= 1;
                }
                proof {
                    assert(m@.take(0) =~= Seq::empty());
                }
                None
            },
            _ => None,
        }
    }

    /// The text of a string.
    pub fn as_str(&self) -> (r: Option<&String>)
        ensures
            match r {
                Some(s) => json_str(self@) == Some(s@),
                None => json_str(self@) is None,
            },
    {
        match self {
            JsonValue::Text(s) => Some(s),
            _ => None,
        }
    }

    /// The items of an array.
    pub fn as_array(&self) -> (r: Option<&Vec<JsonValue>>)
        ensures
            match r {
                Some(a) => self@ == Json::Arr(elements(a@)),
                None => !(self@ is Arr),
            },
    {
        match self {
            JsonValue::Array(a) => Some(a),
            _ => None,
        }
    }

    /// An integer that fits 64 bits with a sign.
    pub fn as_i64(&self) -> (r: Option<i64>)
        ensures
            r == json_i64(self@),
    {
        match self {
            JsonValue::UInt(n) => if *n <= 9223372036854775807u64 {
                Some(*n as i64)
            } else {
                None
            },
            JsonValue::NegInt(n) => Some(*n),
            _ => None,
        }
    }

    /// An integer that fits 64 bits without a sign.
    pub fn as_u64(&self) -> (r: Option<u64>)
        ensures
            r == json_u64(self@),
    {
        match self {
            JsonValue::UInt(n) => Some(*n),
            JsonValue::NegInt(n) => if *n >= 0 {
                Some(*n as u64)
            } else {
                None
            },
            _ => None,
        }
    }

    /// The text of the member of the given name.
    pub fn str_of(&self, name: &str) -> (r: Option<&String>)
        ensures
            match r {
                Some(s) => str_member(self@, name@) == Some(s@),
                None => str_member(self@, name@) is None,
            },
    {
        match self.get(name) {
            Some(v) => v.as_str(),
            None => None,
        }
    }

    /// The signed integer under the given name.
    pub fn i64_of(&self, name: &str) -> (r: Option<i64>)
        ensures
            r == i64_member(self@, name@),
    {
        match self.get(name) {
            Some(v) => v.as_i64(),
            None => None,
        }
    }

    /// The unsigned integer under the given name.
    pub fn u64_of(&self, name: &str) -> (r: Option<u64>)
        ensures
            r == u64_member(self@, name@),
    {
        match self.get(name) {
            Some(v) => v.as_u64(),
            None => None,
        }
    }

    /// Whether the value is an object.
    pub fn is_object(&self) -> (r: bool)
        ensures
            r == (self@ is Obj),
    {
        matches!(self, JsonValue::Object(_))
    }
}

/// A member is found under its name, and under no other; only objects have
/// members.
pub proof fn law_members_by_name(m: Map<Seq<char>, Json>, name: Seq<char>, other: Seq<char>, v: Json)
    ensures
        json_get(Json::Obj(m.insert(name, v)), name) == Some(v),
        other != name ==> json_get(Json::Obj(m.insert(name, v)), other) == json_get(
            Json::Obj(m),
            other,
        ),
        json_get(Json::Obj(Map::empty()), name) is None,
        !(v is Obj) ==> json_get(v, name) is None,
{
}

/// A member is read as what it is: a text only as a text, a number only as a
/// number, and one that does not fit not at all.
pub proof fn law_members_by_kind(m: Map<Seq<char>, Json>, name: Seq<char>, s: Seq<char>, n: int)
    ensures
        str_member(Json::Obj(m.insert(name, Json::Str(s))), name) == Some(s),
        str_member(Json::Obj(m.insert(name, Json::Int(n))), name) is None,
        u64_member(Json::Obj(m.insert(name, Json::Str(s))), name) is None,
        i64_member(Json::Obj(m.insert(name, Json::Str(s))), name) is None,
        0 <= n <= u64::MAX ==> u64_member(Json::Obj(m.insert(name, Json::Int(n))), name) == Some(
            n as u64,
        ),
        !(0 <= n <= u64::MAX) ==> u64_member(Json::Obj(m.insert(name, Json::Int(n))), name) is None,
        i64::MIN <= n <= i64::MAX ==> i64_member(Json::Obj(m.insert(name, Json::Int(n))), name)
            == Some(n as i64),
        !(i64::MIN <= n <= i64::MAX) ==> i64_member(
            Json::Obj(m.insert(name, Json::Int(n))),
            name,
        ) is None,
        !m.dom().contains(name) ==> str_member(Json::Obj(m), name) is None && u64_member(
            Json::Obj(m),
            name,
        ) is None && i64_member(Json::Obj(m), name) is None,
{
}

} // verus!
