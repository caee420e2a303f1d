//! A JSON document model held as plain values, with the few operations that the
//! request and response shaping needs. Conversion to and from the wire format
//! is left to the serialisation layer.

use vstd::prelude::*;

verus! {

/// A JSON number: an integer, or the canonical decimal text of any other number.
#[derive(Debug, Clone)]
pub enum JsonNumber {
    Int(i64),
    UInt(u64),
    Decimal(String),
}

/// A JSON value. Object members keep the order in which they were inserted.
#[derive(Debug)]
pub enum JsonValue {
    Null,
    Bool(bool),
    Number(JsonNumber),
    Text(String),
    Array(Vec<JsonValue>),
    Object(Vec<(String, JsonValue)>),
}

/// Mathematical view of a JSON number.
pub enum NumberView {
    Int(int),
    Decimal(Seq<char>),
}

/// Mathematical view of a JSON value.
pub enum Json {
    Null,
    Bool(bool),
    Number(NumberView),
    Text(Seq<char>),
    Array(Seq<Json>),
    Object(Seq<(Seq<char>, Json)>),
}

impl View for JsonNumber {
    type V = NumberView;

    open spec fn view(&self) -> NumberView {
        match self {
            JsonNumber::Int(i) => NumberView::Int(*i as int),
            JsonNumber::UInt(u) => NumberView::Int(*u as int),
            JsonNumber::Decimal(s) => NumberView::Decimal(s@),
        }
    }
}

pub open spec fn json_view(v: JsonValue) -> Json
    decreases v,
{
    match v {
        JsonValue::Null => Json::Null,
        JsonValue::Bool(b) => Json::Bool(b),
        JsonValue::Number(n) => Json::Number(n@),
        JsonValue::Text(s) => Json::Text(s@),
        JsonValue::Array(items) => Json::Array(values_view(items@)),
        JsonValue::Object(entries) => Json::Object(entries_view(entries@)),
    }
}

pub open spec fn values_view(s: Seq<JsonValue>) -> Seq<Json>
    decreases s,
{
    if s.len() == 0 {
        Seq::empty()
    } else {
        values_view(s.drop_last()).push(json_view(s.last()))
    }
}

pub open spec fn entries_view(s: Seq<(String, JsonValue)>) -> Seq<(Seq<char>, Json)>
    decreases s,
{
    if s.len() == 0 {
        Seq::empty()
    } else {
        entries_view(s.drop_last()).push((s.last().0@, json_view(s.last().1)))
    }
}

impl View for JsonValue {
    type V = Json;

    open spec fn view(&self) -> Json {
        json_view(*self)
    }
}

pub proof fn lemma_values_view(s: Seq<JsonValue>)
    ensures
        values_view(s).len() == s.len(),
        forall|i: int| 0 <= i < s.len() ==> #[trigger] values_view(s)[i] == json_view(s[i]),
    decreases s.len(),
{
    if s.len() > 0 {
        lemma_values_view(s.drop_last());
    }
}

pub proof fn lemma_entries_view(s: Seq<(String, JsonValue)>)
    ensures
        entries_view(s).len() == s.len(),
        forall|i: int|
            0 <= i < s.len() ==> #[trigger] entries_view(s)[i] == (s[i].0@, json_view(s[i].1)),
    decreases s.len(),
{
    if s.len() > 0 {
        lemma_entries_view(s.drop_last());
    }
}

/// The value of the first member named `key`.
pub open spec fn entries_lookup(es: Seq<(Seq<char>, Json)>, key: Seq<char>) -> Option<Json>
    decreases es.len(),
{
    if es.len() == 0 {
        None
    } else if es[0].0 == key {
        Some(es[0].1)
    } else {
        entries_lookup(es.drop_first(), key)
    }
}

/// `es` with the first member named `key` given the value `v`, or with the member
/// appended when there is none.
pub open spec fn entries_set(es: Seq<(Seq<char>, Json)>, key: Seq<char>, v: Json) -> Seq<
    (Seq<char>, Json),
>
    decreases es.len(),
{
    if es.len() == 0 {
        seq![(key, v)]
    } else if es[0].0 == key {
        es.update(0, (key, v))
    } else {
        seq![es[0]] + entries_set(es.drop_first(), key, v)
    }
}

impl Json {
    /// `self[key]` for an object; `None` for a missing member or a non-object.
    pub open spec fn field(self, key: Seq<char>) -> Option<Json> {
        match self {
            Json::Object(es) => entries_lookup(es, key),
            _ => None,
        }
    }

    pub open spec fn with_field(self, key: Seq<char>, v: Json) -> Json {
        match self {
            Json::Object(es) => Json::Object(entries_set(es, key, v)),
            _ => self,
        }
    }

    pub open spec fn as_text(self) -> Option<Seq<char>> {
        match self {
            Json::Text(s) => Some(s),
            _ => None,
        }
    }

    /// `self[key]` as a string, when it is one.
    pub open spec fn text_field(self, key: Seq<char>) -> Option<Seq<char>> {
        match self.field(key) {
            Some(v) => v.as_text(),
            None => None,
        }
    }
}

pub open spec fn opt_json(r: Option<&JsonValue>) -> Option<Json> {
    match r {
        Some(v) => Some(v@),
        None => None,
    }
}

/// Setting a member and reading it back: the member read is the one set, and
/// every other member reads as before.
pub proof fn law_set_then_lookup(es: Seq<(Seq<char>, Json)>, key: Seq<char>, v: Json, k2: Seq<char>)
    ensures
        entries_lookup(entries_set(es, key, v), k2) == if k2 == key {
            Some(v)
        } else {
            entries_lookup(es, k2)
        },
    decreases es.len(),
{
    let s = entries_set(es, key, v);
    if es.len() > 0 && es[0].0 != key {
        law_set_then_lookup(es.drop_first(), key, v, k2);
        assert(s[0] == es[0]);
        assert(s.drop_first() =~= entries_set(es.drop_first(), key, v));
        if es[0].0 == k2 {
            assert(entries_lookup(s, k2) == Some(es[0].1));
        } else {
            assert(entries_lookup(s, k2) == entries_lookup(s.drop_first(), k2));
        }
    } else if es.len() > 0 {
        assert(s[0] == (key, v));
        assert(s.drop_first() =~= es.drop_first());
        if k2 != key {
            assert(entries_lookup(s, k2) == entries_lookup(s.drop_first(), k2));
        }
    } else {
        assert(s[0] == (key, v));
        assert(s.drop_first() =~= Seq::<(Seq<char>, Json)>::empty());
        if k2 != key {
            assert(entries_lookup(s, k2) == entries_lookup(s.drop_first(), k2));
        }
    }
}

/// A string value.
pub fn text(s: &str) -> (r: JsonValue)
    ensures
        r@ == Json::Text(s@),
{
    JsonValue::Text(String::from_str(s))
}

/// A string value from an owned string.
pub fn text_owned(s: String) -> (r: JsonValue)
    ensures
        r@ == Json::Text(s@),
{
    JsonValue::Text(s)
}

/// An optional string: the string, or `null`.
pub fn opt_text(s: Option<String>) -> (r: JsonValue)
    ensures
        r@ == match s {
            Some(t) => Json::Text(t@),
            None => Json::Null,
        },
{
    match s {
        Some(t) => JsonValue::Text(t),
        None => JsonValue::Null,
    }
}

/// An empty object.
pub fn empty_object() -> (r: JsonValue)
    ensures
        r@ == Json::Object(Seq::empty()),
{
    let es: Vec<(String, JsonValue)> = Vec::new();
    proof {
        assert(es@ =~= Seq::<(String, JsonValue)>::empty());
    }
    JsonValue::Object(es)
}

/// An array holding `items` in order.
pub fn array(items: Vec<JsonValue>) -> (r: JsonValue)
    ensures
        r@ == Json::Array(values_view(items@)),
{
    JsonValue::Array(items)
}

impl JsonNumber {
    pub fn deep_clone(&self) -> (r: JsonNumber)
        ensures
            r@ == self@,
    {
        match self {
            JsonNumber::Int(i) => JsonNumber::Int(*i),
            JsonNumber::UInt(u) => JsonNumber::UInt(*u),
            JsonNumber::Decimal(s) => JsonNumber::Decimal(s.clone()),
        }
    }
}

impl JsonValue {
    /// A copy with the same view.
    #[verifier::loop_isolation(false)]
    pub fn deep_clone(&self) -> (r: JsonValue)
        ensures
            r@ == self@,
        decreases self,
    {
        match self {
            JsonValue::Null => JsonValue::Null,
            JsonValue::Bool(b) => JsonValue::Bool(*b),
            JsonValue::Number(n) => JsonValue::Number(n.deep_clone()),
            JsonValue::Text(s) => JsonValue::Text(s.clone()),
            JsonValue::Array(items) => {
                let mut out: Vec<JsonValue> = Vec::new();
                let mut i: usize = 0;
                while i < items.len()
                    invariant
                        i <= items@.len(),
                        out@.len() == i,
                        forall|k: int| 0 <= k < i ==> json_view(#[trigger] out@[k]) == json_view(items@[k]),
                    decreases items@.len() - i,
                {
                    assert(decreases_to!(*self => items@[i as int]));
                    let c = items[i].deep_clone();
                    out.push(c);
                    i = i + 1;
                }
                proof {
                    lemma_values_view(out@);
                    lemma_values_view(items@);
                    assert(values_view(out@) =~= values_view(items@));
                }
                JsonValue::Array(out)
            },
            JsonValue::Object(entries) => {
                let mut out: Vec<(String, JsonValue)> = Vec::new();
                let mut i: usize = 0;
                while i < entries.len()
                    invariant
                        i <= entries@.len(),
                        out@.len() == i,
                        forall|k: int|
                            0 <= k < i ==> (#[trigger] out@[k]).0@ == entries@[k].0@ && json_view(
                                out@[k].1,
                            ) == json_view(entries@[k].1),
                    decreases entries@.len() - i,
                {
                    assert(decreases_to!(*self => entries@[i as int].1));
                    let c = entries[i].1.deep_clone();
                    let k = entries[i].0.clone();
                    out.push((k, c));
                    i = i + 1;
                }
                proof {
                    lemma_entries_view(out@);
                    lemma_entries_view(entries@);
                    assert(entries_view(out@) =~= entries_view(entries@));
                }
                JsonValue::Object(out)
            },
        }
    }

    /// The value of the first member named `key`, for an object.
    #[verifier::loop_isolation(false)]
    pub fn get(&self, key: &str) -> (r: Option<&JsonValue>)
        ensures
            opt_json(r) == self@.field(key@),
    {
        match self {
            JsonValue::Object(entries) => {
                proof {
                    lemma_entries_view(entries@);
                }
                let ghost es = entries_view(entries@);
                let mut i: usize = 0;
                assert(es.subrange(0, es.len() as int) =~= es);
                while i < entries.len()
                    invariant
                        i <= entries@.len(),
                        es == entries_view(entries@),
                        es.len() == entries@.len(),
                        forall|k: int| 0 <= k < es.len() ==> #[trigger] es[k] == (entries@[k].0@, json_view(entries@[k].1)),
                        entries_lookup(es, key@) == entries_lookup(es.subrange(i as int, es.len() as int), key@),
                    decreases entries@.len() - i,
                {
                    let ghost rest = es.subrange(i as int, es.len() as int);
                    if str_equal(entries[i].0.as_str(), key) {
                        assert(rest[0] == es[i as int]);
                        assert(es[i as int].0 == key@);
                        assert(entries_lookup(rest, key@) == Some(json_view(entries@[i as int].1)));
                        return Some(&entries[i].1);
                    }
                    assert(rest[0] == es[i as int]);
                    assert(rest.drop_first() =~= es.subrange(i + 1, es.len() as int));
                    i = i + 1;
                }
                None
            },
            _ => None,
        }
    }

    /// The string inside a string value.
    pub fn as_str(&self) -> (r: Option<&String>)
        ensures
            match r {
                Some(s) => self@ == Json::Text(s@),
                None => self@.as_text() is None,
            },
    {
        match self {
            JsonValue::Text(s) => Some(s),
            _ => None,
        }
    }

    /// The string member `key`, when present and a string.
    pub fn get_str(&self, key: &str) -> (r: Option<&String>)
        ensures
            match r {
                Some(s) => self@.text_field(key@) == Some(s@),
                None => self@.text_field(key@) is None,
            },
    {
        match self.get(key) {
            Some(v) => v.as_str(),
            None => None,
        }
    }

    /// The items of an array value.
    pub fn as_array(&self) -> (r: Option<&Vec<JsonValue>>)
        ensures
            match r {
                Some(items) => self@ == Json::Array(values_view(items@)),
                None => !(self@ is Array),
            },
    {
        match self {
            JsonValue::Array(items) => Some(items),
            _ => None,
        }
    }

    pub fn is_object(&self) -> (r: bool)
        ensures
            r == (self@ is Object),
    {
        match self {
            JsonValue::Object(_) => true,
            _ => false,
        }
    }

    /// The object with member `key` set to `value` (replacing the first member of
    /// that name, or appended); a non-object is returned unchanged.
    pub fn with_field(self, key: &str, value: JsonValue) -> (r: JsonValue)
        ensures
            r@ == self@.with_field(key@, value@),
    {
        match self {
            JsonValue::Object(entries) => {
                let mut entries = entries;
                proof {
                    lemma_entries_view(entries@);
                }
                let ghost es0 = entries_view(entries@);
                let mut i: usize = 0;
                let mut found = false;
                while i < entries.len() && !found
                    invariant
                        i <= entries@.len(),
                        es0 == entries_view(entries@),
                        es0.len() == entries@.len(),
                        forall|k: int| 0 <= k < es0.len() ==> #[trigger] es0[k] == (entries@[k].0@, json_view(entries@[k].1)),
                        forall|k: int| 0 <= k < i ==> es0[k].0 != key@,
                        found ==> i < entries@.len() && es0[i as int].0 == key@,
                    decreases entries@.len() - i, if found { 0int } else { 1int },
                {
                    if str_equal(entries[i].0.as_str(), key) {
                        found = true;
                    } else {
                        i = i + 1;
                    }
                }
                if found {
                    entries.set(i, (String::from_str(key), value));
                    proof {
                        lemma_entries_set_at(es0, key@, value@, i as int);
                        lemma_entries_view(entries@);
                        assert(entries_view(entries@) =~= es0.update(i as int, (key@, value@)));
                    }
                } else {
                    entries.push((String::from_str(key), value));
                    proof {
                        lemma_entries_set_absent(es0, key@, value@);
                        lemma_entries_view(entries@);
                        assert(entries_view(entries@) =~= es0.push((key@, value@)));
                    }
                }
                JsonValue::Object(entries)
            },
            other => other,
        }
    }
}

proof fn lemma_entries_set_at(es: Seq<(Seq<char>, Json)>, key: Seq<char>, v: Json, i: int)
    requires
        0 <= i < es.len(),
        es[i].0 == key,
        forall|k: int| 0 <= k < i ==> es[k].0 != key,
    ensures
        entries_set(es, key, v) == es.update(i, (key, v)),
    decreases i,
{
    if i > 0 {
        lemma_entries_set_at(es.drop_first(), key, v, i - 1);
        assert(seq![es[0]] + es.drop_first().update(i - 1, (key, v)) =~= es.update(i, (key, v)));
    }
}

proof fn lemma_entries_set_absent(es: Seq<(Seq<char>, Json)>, key: Seq<char>, v: Json)
    requires
        forall|k: int| 0 <= k < es.len() ==> es[k].0 != key,
    ensures
        entries_set(es, key, v) == es.push((key, v)),
    decreases es.len(),
{
    if es.len() > 0 {
        lemma_entries_set_absent(es.drop_first(), key, v);
        assert(seq![es[0]] + es.drop_first().push((key, v)) =~= es.push((key, v)));
    }
}

/// Character-wise equality of two strings.
pub fn str_equal(a: &str, b: &str) -> (r: bool)
    ensures
        r == (a@ == b@),
{
    let n = a.unicode_len();
    if n != b.unicode_len() {
        return false;
    }
    let mut i: usize = 0;
    while i < n
        invariant
            n == a@.len(),
            n == b@.len(),
            i <= n,
            forall|k: int| 0 <= k < i ==> a@[k] == b@[k],
        decreases n - i,
    {
        if a.get_char(i) != b.get_char(i) {
            return false;
        }
        i = i + 1;
    }
    assert(a@ =~= b@);
    true
}

} // verus!

verus! {

/// A key/value member.
pub fn member(key: &str, value: JsonValue) -> (r: (String, JsonValue))
    ensures
        r.0@ == key@,
        json_view(r.1) == value@,
{
    (String::from_str(key), value)
}

/// An object with the two members given, in order.
pub fn object2(k1: &str, v1: JsonValue, k2: &str, v2: JsonValue) -> (r: JsonValue)
    ensures
        r@ == Json::Object(seq![(k1@, v1@), (k2@, v2@)]),
{
    let mut es: Vec<(String, JsonValue)> = Vec::new();
    es.push(member(k1, v1));
    es.push(member(k2, v2));
    proof {
        lemma_entries_view(es@);
        assert(entries_view(es@) =~= seq![(k1@, v1@), (k2@, v2@)]);
    }
    JsonValue::Object(es)
}

/// An object with the three members given, in order.
pub fn object3(k1: &str, v1: JsonValue, k2: &str, v2: JsonValue, k3: &str, v3: JsonValue) -> (r:
    JsonValue)
    ensures
        r@ == Json::Object(seq![(k1@, v1@), (k2@, v2@), (k3@, v3@)]),
{
    let mut es: Vec<(String, JsonValue)> = Vec::new();
    es.push(member(k1, v1));
    es.push(member(k2, v2));
    es.push(member(k3, v3));
    proof {
        lemma_entries_view(es@);
        assert(entries_view(es@) =~= seq![(k1@, v1@), (k2@, v2@), (k3@, v3@)]);
    }
    JsonValue::Object(es)
}

/// An object with the four members given, in order.
pub fn object4(
    k1: &str,
    v1: JsonValue,
    k2: &str,
    v2: JsonValue,
    k3: &str,
    v3: JsonValue,
    k4: &str,
    v4: JsonValue,
) -> (r: JsonValue)
    ensures
        r@ == Json::Object(seq![(k1@, v1@), (k2@, v2@), (k3@, v3@), (k4@, v4@)]),
{
    let mut es: Vec<(String, JsonValue)> = Vec::new();
    es.push(member(k1, v1));
    es.push(member(k2, v2));
    es.push(member(k3, v3));
    es.push(member(k4, v4));
    proof {
        lemma_entries_view(es@);
        assert(entries_view(es@) =~= seq![(k1@, v1@), (k2@, v2@), (k3@, v3@), (k4@, v4@)]);
    }
    JsonValue::Object(es)
}

/// Appends `v` to `items`, keeping the view in step.
pub fn push_value(items: &mut Vec<JsonValue>, v: JsonValue)
    ensures
        values_view(final(items)@) == values_view(old(items)@).push(v@),
{
    items.push(v);
    proof {
        assert(final(items)@.drop_last() =~= old(items)@);
    }
}

} // verus!
