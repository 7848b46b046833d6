use vstd::prelude::*;

verus! {

/// Number payload of a JSON value.
pub enum JsonNumber {
    PosInt(u64),
    NegInt(i64),
    /// A number with a fraction or exponent, kept as its decimal text.
    Float(String),
}

/// A JSON document.
pub enum JsonValue {
    Null,
    Bool(bool),
    Number(JsonNumber),
    Str(String),
    Array(Vec<JsonValue>),
    Object(Vec<(String, JsonValue)>),
}

pub enum JNum {
    PosInt(u64),
    NegInt(i64),
    Float(Seq<char>),
}

/// Mathematical model of a JSON document.
pub enum Json {
    Null,
    Bool(bool),
    Number(JNum),
    Str(Seq<char>),
    Array(Seq<Json>),
    Object(Seq<(Seq<char>, Json)>),
}

impl JsonNumber {
    pub open spec fn view(&self) -> JNum {
        match self {
            JsonNumber::PosInt(u) => JNum::PosInt(*u),
            JsonNumber::NegInt(i) => JNum::NegInt(*i),
            JsonNumber::Float(s) => JNum::Float(s@),
        }
    }
}

impl JsonValue {
    pub open spec fn model(self) -> Json
        decreases self,
    {
        match self {
            JsonValue::Null => Json::Null,
            JsonValue::Bool(b) => Json::Bool(b),
            JsonValue::Number(n) => Json::Number(n.view()),
            JsonValue::Str(s) => Json::Str(s@),
            JsonValue::Array(v) => Json::Array(
                Seq::new(v@.len(), |i: int| if 0 <= i < v@.len() { v@[i].model() } else { Json::Null }),
            ),
            JsonValue::Object(v) => Json::Object(
                Seq::new(v@.len(), |i: int| if 0 <= i < v@.len() { (v@[i].0@, v@[i].1.model()) } else { (Seq::empty(), Json::Null) }),
            ),
        }
    }
}

}

verus! {

/// Value bound to `key` in an association list: the first pair with that key.
pub open spec fn assoc_get(pairs: Seq<(Seq<char>, Json)>, key: Seq<char>) -> Option<Json>
    decreases pairs.len(),
{
    if pairs.len() == 0 {
        None
    } else if pairs[0].0 == key {
        Some(pairs[0].1)
    } else {
        assoc_get(pairs.drop_first(), key)
    }
}

/// The member found under `key` is the first one named `key`.
pub proof fn lemma_assoc_get_first(pairs: Seq<(Seq<char>, Json)>, key: Seq<char>, i: int)
    requires
        0 <= i < pairs.len(),
        pairs[i].0 == key,
        forall|j: int| 0 <= j < i ==> pairs[j].0 != key,
    ensures
        assoc_get(pairs, key) == Some(pairs[i].1),
    decreases i,
{
    if i > 0 {
        lemma_assoc_get_first(pairs.drop_first(), key, i - 1);
    }
}

/// No member is found under a key that no member has.
pub proof fn lemma_assoc_get_absent(pairs: Seq<(Seq<char>, Json)>, key: Seq<char>)
    requires
        forall|j: int| 0 <= j < pairs.len() ==> pairs[j].0 != key,
    ensures
        assoc_get(pairs, key) is None,
    decreases pairs.len(),
{
    if pairs.len() > 0 {
        lemma_assoc_get_absent(pairs.drop_first(), key);
    }
}

impl Json {
    /// The member of an object under a string key.
    pub open spec fn get(self, key: Seq<char>) -> Option<Json> {
        match self {
            Json::Object(pairs) => assoc_get(pairs, key),
            _ => None,
        }
    }

    pub open spec fn as_str(self) -> Option<Seq<char>> {
        match self {
            Json::Str(s) => Some(s),
            _ => None,
        }
    }

    pub open spec fn as_bool(self) -> Option<bool> {
        match self {
            Json::Bool(b) => Some(b),
            _ => None,
        }
    }

    /// `Value::as_u64`: only non-negative integers.
    pub open spec fn as_u64(self) -> Option<u64> {
        match self {
            Json::Number(JNum::PosInt(u)) => Some(u),
            _ => None,
        }
    }

    pub open spec fn as_array(self) -> Option<Seq<Json>> {
        match self {
            Json::Array(a) => Some(a),
            _ => None,
        }
    }

    /// Name of the JSON type, as shown in validation messages.
    pub open spec fn kind_name(self) -> Seq<char> {
        match self {
            Json::Null => "null"@,
            Json::Bool(_) => "boolean"@,
            Json::Number(_) => "number"@,
            Json::Str(_) => "string"@,
            Json::Array(_) => "array"@,
            Json::Object(_) => "object"@,
        }
    }
}

/// Member `key` of `j`, as a string.
pub open spec fn get_str(j: Json, key: Seq<char>) -> Option<Seq<char>> {
    match j.get(key) {
        Some(v) => v.as_str(),
        None => None,
    }
}

pub open spec fn get_bool(j: Json, key: Seq<char>) -> Option<bool> {
    match j.get(key) {
        Some(v) => v.as_bool(),
        None => None,
    }
}

pub open spec fn get_u64(j: Json, key: Seq<char>) -> Option<u64> {
    match j.get(key) {
        Some(v) => v.as_u64(),
        None => None,
    }
}

pub open spec fn get_array(j: Json, key: Seq<char>) -> Option<Seq<Json>> {
    match j.get(key) {
        Some(v) => v.as_array(),
        None => None,
    }
}

/// Member `key` as a string, or the empty string.
pub open spec fn str_or_empty(j: Json, key: Seq<char>) -> Seq<char> {
    match get_str(j, key) {
        Some(s) => s,
        None => Seq::empty(),
    }
}

pub open spec fn opt_model(r: Option<&JsonValue>) -> Option<Json> {
    match r {
        Some(v) => Some(v.model()),
        None => None,
    }
}

pub open spec fn pairs_model(v: Seq<(String, JsonValue)>) -> Seq<(Seq<char>, Json)> {
    Seq::new(v.len(), |i: int| (v[i].0@, v[i].1.model()))
}

pub open spec fn values_model(v: Seq<JsonValue>) -> Seq<Json> {
    Seq::new(v.len(), |i: int| v[i].model())
}

pub proof fn lemma_object_model(v: Vec<(String, JsonValue)>)
    ensures
        JsonValue::Object(v).model() == Json::Object(pairs_model(v@)),
{
    match JsonValue::Object(v).model() {
        Json::Object(m) => {
            assert(m =~= pairs_model(v@));
        },
        _ => {},
    }
}

pub proof fn lemma_array_model(v: Vec<JsonValue>)
    ensures
        JsonValue::Array(v).model() == Json::Array(values_model(v@)),
{
    match JsonValue::Array(v).model() {
        Json::Array(m) => {
            assert(m =~= values_model(v@));
        },
        _ => {},
    }
}

impl JsonValue {
    /// Member `key` of an object; `None` for non-objects.
    pub fn get(&self, key: &str) -> (r: Option<&JsonValue>)
        ensures
            opt_model(r) == self.model().get(key@),
    {
        match self {
            JsonValue::Object(pairs) => {
                proof {
                    lemma_object_model(*pairs);
                }
                let ghost all = pairs_model(pairs@);
                assert(self.model() == Json::Object(all));
                assert(all.subrange(0, all.len() as int) =~= all);
                let mut i: usize = 0;
                while i < pairs.len()
                    invariant
                        i <= pairs@.len(),
                        all == pairs_model(pairs@),
                        self.model() == Json::Object(all),
                        assoc_get(all, key@) == assoc_get(all.subrange(i as int, all.len() as int), key@),
                    decreases pairs.len() - i,
                {
                    let ghost rest = all.subrange(i as int, all.len() as int);
                    if crate::text::str_eq(pairs[i].0.as_str(), key) {
                        proof {
                            assert(rest.len() > 0);
                            assert(rest[0] == all[i as int]);
                            assert(rest[0].0 == key@);
                            assert(assoc_get(rest, key@) == Some(rest[0].1));
                            assert(rest[0].1 == pairs@[i as int].1.model());
                        }
                        return Some(&pairs[i].1);
                    }
                    proof {
                        assert(rest.drop_first() =~= all.subrange(i + 1, all.len() as int));
                    }
                    i = i + 1;
                }
                None
            },
            _ => None,
        }
    }

    pub fn as_str(&self) -> (r: Option<&String>)
        ensures
            match r {
                Some(s) => self.model().as_str() == Some(s@),
                None => self.model().as_str() is None,
            },
    {
        match self {
            JsonValue::Str(s) => Some(s),
            _ => None,
        }
    }

    pub fn as_bool(&self) -> (r: Option<bool>)
        ensures
            r == self.model().as_bool(),
    {
        match self {
            JsonValue::Bool(b) => Some(*b),
            _ => None,
        }
    }

    pub fn as_u64(&self) -> (r: Option<u64>)
        ensures
            r == self.model().as_u64(),
    {
        match self {
            JsonValue::Number(JsonNumber::PosInt(u)) => Some(*u),
            _ => None,
        }
    }

    pub fn as_array(&self) -> (r: Option<&Vec<JsonValue>>)
        ensures
            match r {
                Some(a) => self.model().as_array() == Some(values_model(a@)),
                None => self.model().as_array() is None,
            },
    {
        match self {
            JsonValue::Array(a) => {
                proof {
                    lemma_array_model(*a);
                }
                Some(a)
            },
            _ => None,
        }
    }

    pub fn is_object(&self) -> (r: bool)
        ensures
            r == (self.model() is Object),
    {
        match self {
            JsonValue::Object(_) => true,
            _ => false,
        }
    }

    pub fn is_array(&self) -> (r: bool)
        ensures
            r == (self.model() is Array),
    {
        match self {
            JsonValue::Array(_) => true,
            _ => false,
        }
    }

    /// The type name used in validation messages.
    pub fn kind_name(&self) -> (r: String)
        ensures
            r@ == self.model().kind_name(),
    {
        match self {
            JsonValue::Null => crate::text::owned("null"),
            JsonValue::Bool(_) => crate::text::owned("boolean"),
            JsonValue::Number(_) => crate::text::owned("number"),
            JsonValue::Str(_) => crate::text::owned("string"),
            JsonValue::Array(_) => crate::text::owned("array"),
            JsonValue::Object(_) => crate::text::owned("object"),
        }
    }

    /// A string member of an object, as an owned string.
    pub fn get_string(&self, key: &str) -> (r: Option<String>)
        ensures
            match r {
                Some(s) => get_str(self.model(), key@) == Some(s@),
                None => get_str(self.model(), key@) is None,
            },
    {
        match self.get(key) {
            Some(v) => match v.as_str() {
                Some(s) => Some(s.clone()),
                None => None,
            },
            None => None,
        }
    }

    pub fn get_bool(&self, key: &str) -> (r: Option<bool>)
        ensures
            r == get_bool(self.model(), key@),
    {
        match self.get(key) {
            Some(v) => v.as_bool(),
            None => None,
        }
    }

    pub fn get_u64(&self, key: &str) -> (r: Option<u64>)
        ensures
            r == get_u64(self.model(), key@),
    {
        match self.get(key) {
            Some(v) => v.as_u64(),
            None => None,
        }
    }

    /// A string member of an object, or the empty string.
    pub fn get_str_or_empty(&self, key: &str) -> (r: String)
        ensures
            r@ == str_or_empty(self.model(), key@),
    {
        match self.get_string(key) {
            Some(s) => s,
            None => String::new(),
        }
    }
}

// ---------------------------------------------------------------------------
// Building documents
// ---------------------------------------------------------------------------

/// Appends member `key` to the members of an object under construction.
pub fn member(pairs: &mut Vec<(String, JsonValue)>, key: &str, v: JsonValue)
    ensures
        pairs_model(final(pairs)@) == pairs_model(old(pairs)@).push((key@, v.model())),
{
    let ghost before = pairs@;
    pairs.push((crate::text::owned(key), v));
    proof {
        assert(pairs_model(pairs@) =~= pairs_model(before).push((key@, v.model())));
    }
}

/// An object with the given members, in order.
pub fn object(pairs: Vec<(String, JsonValue)>) -> (r: JsonValue)
    ensures
        r.model() == Json::Object(pairs_model(pairs@)),
{
    proof {
        lemma_object_model(pairs);
    }
    JsonValue::Object(pairs)
}

/// An array of the given items, in order.
pub fn array(items: Vec<JsonValue>) -> (r: JsonValue)
    ensures
        r.model() == Json::Array(values_model(items@)),
{
    proof {
        lemma_array_model(items);
    }
    JsonValue::Array(items)
}

/// A non-negative integer.
pub fn num(n: u64) -> (r: JsonValue)
    ensures
        r.model() == Json::Number(JNum::PosInt(n)),
{
    JsonValue::Number(JsonNumber::PosInt(n))
}

/// A string.
pub fn text(s: &str) -> (r: JsonValue)
    ensures
        r.model() == Json::Str(s@),
{
    JsonValue::Str(crate::text::owned(s))
}

/// A string, or `null`.
pub fn opt_text(s: Option<String>) -> (r: JsonValue)
    ensures
        r.model() == match s {
            Some(t) => Json::Str(t@),
            None => Json::Null,
        },
{
    match s {
        Some(t) => JsonValue::Str(t),
        None => JsonValue::Null,
    }
}

} // verus!
