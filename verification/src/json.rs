//! JSON values as plain data.
use serde_json::Value;
use vstd::prelude::*;

use crate::str_map::{entry_map, lemma_entry_first, lemma_entry_listed, StrMap};
use crate::text::{same_text, texts};

verus! {

/// A number with a fraction or an exponent, by its shortest text.
#[derive(Debug)]
pub struct Decimal {
    text: String,
}

#[derive(Debug)]
pub enum Json {
    Null,
    Bool(bool),
    Unsigned(u64),
    Signed(i64),
    Decimal(Decimal),
    Text(String),
    Array(Vec<Json>),
    Object(StrMap<Json>),
}

/// What a JSON value is: an object has no order, and an integer no width.
#[verifier::ext_equal]
pub enum JsonView {
    Null,
    Bool(bool),
    Integer(int),
    Decimal(Seq<char>),
    Text(Seq<char>),
    Array(Seq<JsonView>),
    Object(Map<Seq<char>, JsonView>),
}

impl Decimal {
    pub closed spec fn digits(self) -> Seq<char> {
        self.text@
    }
}

pub open spec fn json_view(json: Json) -> JsonView
    decreases json,
{
    match json {
        Json::Null => JsonView::Null,
        Json::Bool(b) => JsonView::Bool(b),
        Json::Unsigned(n) => JsonView::Integer(n as int),
        Json::Signed(n) => JsonView::Integer(n as int),
        Json::Decimal(d) => JsonView::Decimal(d.digits()),
        Json::Text(s) => JsonView::Text(s@),
        Json::Array(items) => JsonView::Array(
            Seq::new(
                items@.len(),
                |i: int|
                    if 0 <= i < items@.len() {
                        json_view(items@[i])
                    } else {
                        JsonView::Null
                    },
            ),
        ),
        Json::Object(fields) => JsonView::Object(fields_view(fields.entries@)),
    }
}

/// The object that a list of fields stands for, the first field of a name counting.
pub open spec fn fields_view(fields: Seq<(String, Json)>) -> Map<Seq<char>, JsonView>
    decreases fields,
{
    if fields.len() == 0 {
        Map::empty()
    } else {
        fields_view(fields.drop_first()).insert(fields[0].0@, json_view(fields[0].1))
    }
}

impl View for Json {
    type V = JsonView;

    open spec fn view(&self) -> JsonView {
        json_view(*self)
    }
}

pub open spec fn array_view(items: Seq<Json>) -> Seq<JsonView> {
    Seq::new(items.len(), |i: int| items[i]@)
}

pub open spec fn object_view(fields: StrMap<Json>) -> Map<Seq<char>, JsonView> {
    fields@.map_values(|v: Json| v@)
}

pub proof fn lemma_array_view(items: Vec<Json>)
    ensures
        Json::Array(items)@ == JsonView::Array(array_view(items@)),
{
    assert(Json::Array(items)@->Array_0 =~= array_view(items@));
}

proof fn lemma_fields_view(fields: Seq<(String, Json)>)
    ensures
        fields_view(fields) == entry_map(fields).map_values(|v: Json| v@),
    decreases fields.len(),
{
    if fields.len() == 0 {
        assert(fields_view(fields) =~= entry_map(fields).map_values(|v: Json| v@));
    } else {
        lemma_fields_view(fields.drop_first());
        assert(fields_view(fields) =~= entry_map(fields).map_values(|v: Json| v@));
    }
}

pub proof fn lemma_object_view(fields: StrMap<Json>)
    ensures
        Json::Object(fields)@ == JsonView::Object(object_view(fields)),
{
    lemma_fields_view(fields.entries@);
}

proof fn lemma_same_fields(a: Seq<(String, Json)>, b: Seq<(String, Json)>)
    requires
        a.len() == b.len(),
        forall|j: int| 0 <= j < a.len() ==> (#[trigger] a[j]).0@ == b[j].0@ && a[j].1@ == b[j].1@,
    ensures
        fields_view(a) == fields_view(b),
    decreases a.len(),
{
    if a.len() > 0 {
        assert(a[0].0@ == b[0].0@);
        lemma_same_fields(a.drop_first(), b.drop_first());
    }
}

pub proof fn lemma_with_own_field(value: JsonView, key: Seq<char>)
    ensures
        value.field(key) is Some ==> value.with(key, value.field(key)->0) == value,
{
    if value.field(key) is Some {
        assert(value.with(key, value.field(key)->0)->Object_0 =~= value->Object_0);
    }
}

impl JsonView {
    /// The value of a field; nothing is a field of a value that is no object.
    pub open spec fn field(self, key: Seq<char>) -> Option<JsonView> {
        match self {
            JsonView::Object(fields) => if fields.contains_key(key) {
                Some(fields[key])
            } else {
                None
            },
            _ => None,
        }
    }

    pub open spec fn text(self) -> Option<Seq<char>> {
        match self {
            JsonView::Text(s) => Some(s),
            _ => None,
        }
    }

    pub open spec fn items(self) -> Option<Seq<JsonView>> {
        match self {
            JsonView::Array(items) => Some(items),
            _ => None,
        }
    }

    pub open spec fn natural(self) -> Option<u64> {
        match self {
            JsonView::Integer(n) => if 0 <= n <= u64::MAX {
                Some(n as u64)
            } else {
                None
            },
            _ => None,
        }
    }

    pub open spec fn text_field(self, key: Seq<char>) -> Option<Seq<char>> {
        match self.field(key) {
            Some(v) => v.text(),
            None => None,
        }
    }

    /// The text of a field, or the empty text.
    pub open spec fn text_or_empty(self, key: Seq<char>) -> Seq<char> {
        match self.text_field(key) {
            Some(s) => s,
            None => Seq::empty(),
        }
    }

    pub open spec fn items_field(self, key: Seq<char>) -> Option<Seq<JsonView>> {
        match self.field(key) {
            Some(v) => v.items(),
            None => None,
        }
    }

    pub open spec fn natural_field(self, key: Seq<char>) -> Option<u64> {
        match self.field(key) {
            Some(v) => v.natural(),
            None => None,
        }
    }

    /// The object with one field set.
    pub open spec fn with(self, key: Seq<char>, value: JsonView) -> JsonView {
        match self {
            JsonView::Object(fields) => JsonView::Object(fields.insert(key, value)),
            _ => self,
        }
    }

    /// The object with one text field set.
    pub open spec fn with_text(self, key: Seq<char>, value: Seq<char>) -> JsonView {
        self.with(key, JsonView::Text(value))
    }

    pub open spec fn without(self, key: Seq<char>) -> JsonView {
        match self {
            JsonView::Object(fields) => JsonView::Object(fields.remove(key)),
            _ => self,
        }
    }
}

/// Two objects with the same fields are the same.
pub proof fn lemma_objects_equal(a: JsonView, b: JsonView)
    requires
        a is Object,
        b is Object,
        forall|k: Seq<char>| #[trigger] a.field(k) == b.field(k),
    ensures
        a == b,
{
    let x = a->Object_0;
    let y = b->Object_0;
    assert forall|k: Seq<char>| x.contains_key(k) == #[trigger] y.contains_key(k) by {
        assert(a.field(k) == b.field(k));
    }
    assert forall|k: Seq<char>| x.contains_key(k) implies x[k] == #[trigger] y[k] by {
        assert(a.field(k) == b.field(k));
    }
    assert(x =~= y);
}

pub open spec fn empty_object() -> JsonView {
    JsonView::Object(Map::empty())
}

pub open spec fn text_view(text: Option<&str>) -> Option<Seq<char>> {
    match text {
        Some(s) => Some(s@),
        None => None,
    }
}

impl Json {
    pub fn object() -> (r: Json)
        ensures
            r@ == empty_object(),
    {
        let fields: StrMap<Json> = StrMap::new();
        proof {
            lemma_object_view(fields);
            assert(object_view(fields) =~= Map::empty());
        }
        Json::Object(fields)
    }

    pub fn text(value: &str) -> (r: Json)
        ensures
            r@ == JsonView::Text(value@),
    {
        Json::Text(value.to_owned())
    }

    pub fn array(items: Vec<Json>) -> (r: Json)
        ensures
            r@ == JsonView::Array(array_view(items@)),
    {
        proof {
            lemma_array_view(items);
        }
        Json::Array(items)
    }

    pub fn get(&self, key: &str) -> (r: Option<&Json>)
        ensures
            match r {
                Some(v) => self@.field(key@) == Some(v@) && decreases_to!(self => v),
                None => self@.field(key@) is None,
            },
    {
        match self {
            Json::Object(fields) => {
                proof {
                    lemma_object_view(*fields);
                }
                match fields.find(key) {
                    Some(i) => {
                        proof {
                            assert(decreases_to!(self => fields.entries));
                            assert(decreases_to!(fields.entries@ => fields.entries@[i as int]));
                            assert(decreases_to!(fields.entries@[i as int] => fields.entries@[i as int].1));
                        }
                        Some(&fields.entries[i].1)
                    },
                    None => None,
                }
            },
            _ => None,
        }
    }

    pub fn get_mut(&mut self, key: &str) -> (r: Option<&mut Json>)
        ensures
            match r {
                Some(v) => {
                    &&& old(self)@.field(key@) == Some((*v)@)
                    &&& final(self)@ == old(self)@.with(key@, (*final(v))@)
                },
                None => old(self)@.field(key@) is None && *final(self) == *old(self),
            },
    {
        match self {
            Json::Object(fields) => {
                proof {
                    lemma_object_view(*fields);
                    assert forall|other: StrMap<Json>, value: Json|
                        #![trigger fields@.insert(key@, value), other@]
                        other@ == fields@.insert(key@, value) implies Json::Object(other)@
                        == JsonView::Object(object_view(*fields).insert(key@, value@)) by {
                        lemma_object_view(other);
                        assert(object_view(other) =~= object_view(*fields).insert(key@, value@));
                    }
                }
                fields.get_mut(key)
            },
            _ => None,
        }
    }

    pub fn as_text(&self) -> (r: Option<&str>)
        ensures
            text_view(r) == self@.text(),
    {
        match self {
            Json::Text(s) => Some(s.as_str()),
            _ => None,
        }
    }

    pub fn as_array(&self) -> (r: Option<&Vec<Json>>)
        ensures
            match r {
                Some(items) => self@ == JsonView::Array(array_view(items@)) && *self == Json::Array(
                    *items,
                ),
                None => self@.items() is None,
            },
    {
        match self {
            Json::Array(items) => {
                proof {
                    lemma_array_view(*items);
                }
                Some(items)
            },
            _ => None,
        }
    }

    pub fn as_array_mut(&mut self) -> (r: Option<&mut Vec<Json>>)
        ensures
            match r {
                Some(items) => {
                    &&& old(self)@ == JsonView::Array(array_view(items@))
                    &&& final(self)@ == JsonView::Array(array_view(final(items)@))
                },
                None => old(self)@.items() is None && *final(self) == *old(self),
            },
    {
        match self {
            Json::Array(items) => {
                proof {
                    assert forall|other: Vec<Json>| #[trigger]
                        Json::Array(other)@ == JsonView::Array(array_view(other@)) by {
                        lemma_array_view(other);
                    }
                }
                Some(items)
            },
            _ => None,
        }
    }

    pub fn as_u64(&self) -> (r: Option<u64>)
        ensures
            r == self@.natural(),
    {
        match self {
            Json::Unsigned(n) => Some(*n),
            Json::Signed(n) => if *n >= 0 {
                Some(*n as u64)
            } else {
                None
            },
            _ => None,
        }
    }

    pub fn as_bool(&self) -> (r: Option<bool>)
        ensures
            r == (match self@ {
                JsonView::Bool(b) => Some(b),
                _ => None,
            }),
    {
        match self {
            Json::Bool(b) => Some(*b),
            _ => None,
        }
    }

    pub fn is_null(&self) -> (r: bool)
        ensures
            r == (self@ == JsonView::Null),
    {
        matches!(self, Json::Null)
    }

    pub fn is_object(&self) -> (r: bool)
        ensures
            r == (self@ is Object),
    {
        matches!(self, Json::Object(_))
    }

    pub fn text_at(&self, key: &str) -> (r: Option<&str>)
        ensures
            text_view(r) == self@.text_field(key@),
    {
        match self.get(key) {
            Some(v) => v.as_text(),
            None => None,
        }
    }

    pub fn text_or_empty(&self, key: &str) -> (r: &str)
        ensures
            r@ == self@.text_or_empty(key@),
    {
        match self.text_at(key) {
            Some(s) => s,
            None => {
                proof {
                    reveal_strlit("");
                    assert(""@ =~= Seq::empty());
                }
                ""
            },
        }
    }

    /// Whether a field holds a given text.
    pub fn has_text(&self, key: &str, value: &str) -> (r: bool)
        ensures
            r == (self@.text_field(key@) == Some(value@)),
    {
        match self.text_at(key) {
            Some(s) => same_text(s, value),
            None => false,
        }
    }

    pub fn array_at(&self, key: &str) -> (r: Option<&Vec<Json>>)
        ensures
            match r {
                Some(items) => self@.field(key@) == Some(JsonView::Array(array_view(items@)))
                    && decreases_to!(self => *items),
                None => self@.items_field(key@) is None,
            },
    {
        match self.get(key) {
            Some(v) => v.as_array(),
            None => None,
        }
    }

    pub fn array_at_mut(&mut self, key: &str) -> (r: Option<&mut Vec<Json>>)
        ensures
            match r {
                Some(items) => {
                    &&& old(self)@.field(key@) == Some(JsonView::Array(array_view(items@)))
                    &&& final(self)@ == old(self)@.with(
                        key@,
                        JsonView::Array(array_view(final(items)@)),
                    )
                },
                None => old(self)@.items_field(key@) is None && final(self)@ == old(self)@,
            },
    {
        proof {
            lemma_with_own_field(self@, key@);
        }
        match self.get_mut(key) {
            Some(v) => v.as_array_mut(),
            None => None,
        }
    }

    pub fn u64_at(&self, key: &str) -> (r: Option<u64>)
        ensures
            r == self@.natural_field(key@),
    {
        match self.get(key) {
            Some(v) => v.as_u64(),
            None => None,
        }
    }

    /// Sets a field of an object; a value that is no object stays.
    pub fn put(&mut self, key: &str, value: Json)
        ensures
            final(self)@ == old(self)@.with(key@, value@),
    {
        match self {
            Json::Object(fields) => {
                let ghost before = *fields;
                fields.insert(key.to_owned(), value);
                proof {
                    lemma_object_view(before);
                    lemma_object_view(*fields);
                    assert(object_view(*fields) =~= object_view(before).insert(key@, value@));
                }
            },
            _ => {},
        }
    }

    pub fn put_text(&mut self, key: &str, value: &str)
        ensures
            final(self)@ == old(self)@.with_text(key@, value@),
    {
        self.put(key, Json::text(value));
    }

    pub fn remove(&mut self, key: &str)
        ensures
            final(self)@ == old(self)@.without(key@),
    {
        match self {
            Json::Object(fields) => {
                let ghost before = *fields;
                fields.remove(key);
                proof {
                    lemma_object_view(before);
                    lemma_object_view(*fields);
                    assert(object_view(*fields) =~= object_view(before).remove(key@));
                }
            },
            _ => {},
        }
    }

    /// The names of an object's fields, each once; none for another value.
    pub fn keys(&self) -> (r: Vec<String>)
        ensures
            texts(r@).no_duplicates(),
            forall|k: Seq<char>| #[trigger]
                texts(r@).contains(k) == (self@.field(k) is Some),
    {
        match self {
            Json::Object(fields) => {
                proof {
                    lemma_object_view(*fields);
                }
                let r = fields.keys();
                proof {
                    assert forall|k: Seq<char>| #[trigger]
                        texts(r@).contains(k) == (self@.field(k) is Some) by {
                        assert(fields@.contains_key(k) == texts(r@).contains(k));
                    }
                }
                r
            },
            _ => Vec::new(),
        }
    }

    pub fn copy(&self) -> (r: Json)
        ensures
            r@ == self@,
        decreases self,
    {
        match self {
            Json::Null => Json::Null,
            Json::Bool(b) => Json::Bool(*b),
            Json::Unsigned(n) => Json::Unsigned(*n),
            Json::Signed(n) => Json::Signed(*n),
            Json::Decimal(d) => Json::Decimal(Decimal { text: d.text.clone() }),
            Json::Text(s) => Json::Text(s.clone()),
            Json::Array(items) => {
                let mut r: Vec<Json> = Vec::new();
                for i in 0..items.len()
                    invariant
                        decreases_to!(self => *items),
                        r@.len() == i,
                        forall|j: int| 0 <= j < i ==> (#[trigger] r@[j])@ == items@[j]@,
                {
                    assert(decreases_to!(items@ => items@[i as int]));
                    r.push(items[i].copy());
                }
                proof {
                    lemma_array_view(*items);
                    assert(array_view(r@) =~= array_view(items@));
                }
                Json::array(r)
            },
            Json::Object(fields) => {
                let mut entries: Vec<(String, Json)> = Vec::new();
                for i in 0..fields.entries.len()
                    invariant
                        decreases_to!(self => fields.entries),
                        entries@.len() == i,
                        forall|j: int|
                            0 <= j < i ==> (#[trigger] entries@[j]).0@ == fields.entries@[j].0@
                                && entries@[j].1@ == fields.entries@[j].1@,
                {
                    assert(decreases_to!(fields.entries@ => fields.entries@[i as int]));
                    assert(decreases_to!(fields.entries@[i as int] => fields.entries@[i as int].1));
                    entries.push((fields.entries[i].0.clone(), fields.entries[i].1.copy()));
                }
                proof {
                    lemma_same_fields(entries@, fields.entries@);
                }
                Json::Object(StrMap { entries })
            },
        }
    }

    /// Whether two values are the same, whatever the order of their fields.
    pub fn same(&self, other: &Json) -> (r: bool)
        ensures
            r == (self@ == other@),
        decreases self,
    {
        match (self, other) {
            (Json::Null, Json::Null) => true,
            (Json::Bool(a), Json::Bool(b)) => *a == *b,
            (Json::Unsigned(a), Json::Unsigned(b)) => *a == *b,
            (Json::Signed(a), Json::Signed(b)) => *a == *b,
            (Json::Unsigned(a), Json::Signed(b)) => *b >= 0 && *a == *b as u64,
            (Json::Signed(a), Json::Unsigned(b)) => *a >= 0 && *a as u64 == *b,
            (Json::Decimal(a), Json::Decimal(b)) => same_text(a.text.as_str(), b.text.as_str()),
            (Json::Text(a), Json::Text(b)) => same_text(a.as_str(), b.as_str()),
            (Json::Array(a), Json::Array(b)) => {
                proof {
                    lemma_array_view(*a);
                    lemma_array_view(*b);
                }
                if a.len() != b.len() {
                    assert(array_view(a@).len() != array_view(b@).len());
                    return false;
                }
                for i in 0..a.len()
                    invariant
                        decreases_to!(self => *a),
                        self@ == JsonView::Array(array_view(a@)),
                        other@ == JsonView::Array(array_view(b@)),
                        a@.len() == b@.len(),
                        forall|j: int| 0 <= j < i ==> (#[trigger] array_view(a@)[j]) == array_view(b@)[j],
                {
                    assert(decreases_to!(a@ => a@[i as int]));
                    if !a[i].same(&b[i]) {
                        assert(array_view(a@)[i as int] != array_view(b@)[i as int]);
                        return false;
                    }
                }
                assert(array_view(a@) =~= array_view(b@));
                true
            },
            (Json::Object(a), Json::Object(b)) => {
                proof {
                    lemma_object_view(*a);
                    lemma_object_view(*b);
                }
                for i in 0..a.entries.len()
                    invariant
                        decreases_to!(self => a.entries),
                        self@ == JsonView::Object(object_view(*a)),
                        other@ == JsonView::Object(object_view(*b)),
                        forall|j: int|
                            #![trigger a.entries@[j]]
                            0 <= j < i ==> object_view(*b).contains_key(a.entries@[j].0@)
                                && object_view(*b)[a.entries@[j].0@] == object_view(*a)[a.entries@[j].0@],
                {
                    let key = a.entries[i].0.as_str();
                    match a.find(key) {
                        Some(first) => {
                            if first == i {
                                assert(decreases_to!(a.entries@ => a.entries@[i as int]));
                                assert(decreases_to!(a.entries@[i as int] => a.entries@[i as int].1));
                                match b.get(key) {
                                    Some(v) => {
                                        if !a.entries[i].1.same(v) {
                                            assert(object_view(*a)[key@] != object_view(*b)[key@]);
                                            return false;
                                        }
                                    },
                                    None => {
                                        assert(object_view(*a).contains_key(key@));
                                        assert(!object_view(*b).contains_key(key@));
                                        return false;
                                    },
                                }
                            } else {
                                assert(a.entries@[first as int].0@ == key@);
                            }
                        },
                        None => {},
                    }
                }
                for i in 0..b.entries.len()
                    invariant
                        self@ == JsonView::Object(object_view(*a)),
                        other@ == JsonView::Object(object_view(*b)),
                        forall|j: int|
                            #![trigger b.entries@[j]]
                            0 <= j < i ==> object_view(*a).contains_key(b.entries@[j].0@),
                {
                    let key = b.entries[i].0.as_str();
                    if !a.contains_key(key) {
                        proof {
                            lemma_entry_listed(b.entries@, i as int);
                            assert(object_view(*b).contains_key(key@));
                            assert(!object_view(*a).contains_key(key@));
                        }
                        return false;
                    }
                }
                proof {
                    assert forall|k: Seq<char>| object_view(*a).contains_key(k) == #[trigger] object_view(
                        *b,
                    ).contains_key(k) && (object_view(*a).contains_key(k) ==> object_view(*a)[k]
                        == object_view(*b)[k]) by {
                        if a@.contains_key(k) {
                            let j = lemma_entry_first(a.entries@, k);
                            assert(a.entries@[j].0@ == k);
                        }
                        if b@.contains_key(k) {
                            let j = lemma_entry_first(b.entries@, k);
                            assert(b.entries@[j].0@ == k);
                        }
                    }
                    assert(object_view(*a) =~= object_view(*b));
                }
                true
            },
            _ => false,
        }
    }
}

#[verifier::external_type_specification]
#[verifier::external_body]
pub struct ExValue(serde_json::Value);

/// What a `serde_json::Value` holds.
pub uninterp spec fn value_contents(value: serde_json::Value) -> JsonView;

/// What `serde_json::from_str` makes of a text: the value, or the error's message.
pub uninterp spec fn parsed_json(text: Seq<char>) -> Result<JsonView, Seq<char>>;

/// Whether a text is read as a given value.
pub open spec fn reads_as(text: Seq<char>, value: JsonView) -> bool {
    parsed_json(text) == Ok::<JsonView, Seq<char>>(value)
}

/// The compact text of a value.
pub uninterp spec fn json_text(value: JsonView) -> Seq<char>;

/// The indented text of a value.
pub uninterp spec fn pretty_json_text(value: JsonView) -> Seq<char>;

/// An object whose fields are all texts.
pub open spec fn is_text_object(value: JsonView) -> bool {
    value is Object && forall|k: Seq<char>| #[trigger]
        value->Object_0.contains_key(k) ==> value->Object_0[k] is Text
}

/// Whether a JSON text has a comma outside its string literals: only an array of two or more
/// items, or an object written with two or more fields, has one.
pub open spec fn has_bare_comma(text: Seq<char>, in_string: bool) -> bool
    decreases text.len(),
{
    if text.len() == 0 {
        false
    } else if !in_string {
        text[0] == ',' || has_bare_comma(text.skip(1), text[0] == '"')
    } else if text[0] == '\\' {
        text.len() > 1 && has_bare_comma(text.skip(2), true)
    } else {
        has_bare_comma(text.skip(1), text[0] != '"')
    }
}

/// Calls `serde_json::from_str` for a `serde_json::Value`. The result is the named one: the
/// value's contents, or the message of the `serde_json::Error`.
#[verifier::external_body]
fn value_of_text(text: &str) -> (r: Result<serde_json::Value, String>)
    ensures
        match r {
            Ok(value) => reads_as(text@, value_contents(value)),
            Err(message) => parsed_json(text@) == Err::<JsonView, Seq<char>>(message@),
        },
{
    serde_json::from_str(text).map_err(|error: serde_json::Error| error.to_string())
}

/// Calls `serde_json::to_string`. The result is the named text. A `serde_json::Value` has only
/// text keys, so the call does not fail. The text of an object whose fields are all texts is read
/// back by `serde_json::from_str` as that object, and that of an object with a single such field
/// is written without a comma outside its string literals.
#[verifier::external_body]
fn text_of_value(value: &serde_json::Value) -> (r: String)
    ensures
        r@ == json_text(value_contents(*value)),
        is_text_object(value_contents(*value)) ==> reads_as(r@, value_contents(*value)),
        is_text_object(value_contents(*value)) && value_contents(*value)->Object_0.dom().len() == 1
            ==> !has_bare_comma(r@, false),
{
    serde_json::to_string(value).unwrap_or_default()
}

/// Calls `serde_json::to_string_pretty`. The result is the named text.
#[verifier::external_body]
fn pretty_text_of_value(value: &serde_json::Value) -> (r: String)
    ensures
        r@ == pretty_json_text(value_contents(*value)),
{
    serde_json::to_string_pretty(value).unwrap_or_default()
}

/// Takes a `serde_json::Value` apart, variant by variant. The result holds what the value held.
#[verifier::external_body]
fn json_of_value(value: Value) -> (r: Json)
    ensures
        r@ == value_contents(value),
{
    match value {
        Value::Null => Json::Null,
        Value::Bool(b) => Json::Bool(b),
        Value::Number(n) => match (n.as_u64(), n.as_i64()) {
            (Some(n), _) => Json::Unsigned(n),
            (None, Some(n)) => Json::Signed(n),
            (None, None) => Json::Decimal(Decimal { text: n.to_string() }),
        },
        Value::String(s) => Json::Text(s),
        Value::Array(items) => Json::Array(items.into_iter().map(json_of_value).collect()),
        Value::Object(fields) => Json::Object(StrMap {
            entries: fields.into_iter().map(|(k, v)| (k, json_of_value(v))).collect(),
        }),
    }
}

/// Builds a `Value`, variant by variant. The result holds what the value held: the
/// text of a `Decimal` was written by a `serde_json::Number`, so that it reads as the same finite
/// double, and of two fields with one name the first is inserted last.
#[verifier::external_body]
fn value_of_json(json: &Json) -> (r: Value)
    ensures
        value_contents(r) == json@,
{
    match json {
        Json::Null => Value::Null,
        Json::Bool(b) => Value::Bool(*b),
        Json::Unsigned(n) => Value::from(*n),
        Json::Signed(n) => Value::from(*n),
        Json::Decimal(d) => d.text.parse().ok().and_then(serde_json::Number::from_f64).into(),
        Json::Text(s) => Value::String(s.clone()),
        Json::Array(items) => Value::Array(items.iter().map(value_of_json).collect()),
        Json::Object(fields) => Value::Object(
            fields.entries.iter().rev().map(|(k, v)| (k.clone(), value_of_json(v))).collect(),
        ),
    }
}

impl Json {
    /// Reads a JSON text.
    pub fn parse(text: &str) -> (r: Result<Json, String>)
        ensures
            match r {
                Ok(json) => reads_as(text@, json@),
                Err(message) => parsed_json(text@) == Err::<JsonView, Seq<char>>(message@),
            },
    {
        match value_of_text(text) {
            Ok(value) => Ok(json_of_value(value)),
            Err(message) => Err(message),
        }
    }

    /// The compact JSON text.
    pub fn to_text(&self) -> (r: String)
        ensures
            r@ == json_text(self@),
            is_text_object(self@) ==> reads_as(r@, self@),
            is_text_object(self@) && self@->Object_0.dom().len() == 1 ==> !has_bare_comma(r@, false),
    {
        text_of_value(&value_of_json(self))
    }

    /// The indented JSON text.
    pub fn to_pretty_text(&self) -> (r: String)
        ensures
            r@ == pretty_json_text(self@),
    {
        pretty_text_of_value(&value_of_json(self))
    }
}

} // verus!
