//! JSON values. `Json` holds a value as plain data, `JsonV` is what it stands for: an object is a
//! map from its keys, so the order in which fields are written does not count.

use vstd::prelude::*;

use crate::chars::{is_space, opt_str, precedes, same, text_precedes};

verus! {

// ---------------------------------------------------------------------------
// What comes from serde_json

#[verifier::external_type_specification]
#[verifier::external_body]
pub struct ExValue(serde_json::Value);

#[verifier::external_type_specification]
#[verifier::external_body]
pub struct ExNumber(serde_json::Number);

#[verifier::external_type_specification]
#[verifier::external_body]
pub struct ExError(serde_json::Error);

/// The integer that a `serde_json::Number` holds; none where it holds a float.
pub uninterp spec fn integer_of(n: serde_json::Number) -> Option<int>;

/// What a `serde_json::Value` holds.
pub uninterp spec fn content(v: serde_json::Value) -> JsonV;

/// What `serde_json::from_str` reads out of a text; none where the text is not JSON.
pub uninterp spec fn parsed(text: Seq<char>) -> Option<JsonV>;

/// The text that `serde_json::to_string` writes for a value.
pub uninterp spec fn compact_text(v: JsonV) -> Seq<char>;

/// The text that `serde_json::to_string_pretty` writes for a value.
pub uninterp spec fn pretty_text(v: JsonV) -> Seq<char>;

/// The text that `serde_json::Error` displays.
pub uninterp spec fn error_message(e: serde_json::Error) -> Seq<char>;

/// `serde_json::Number::clone` gives back the same number.
pub assume_specification[ <serde_json::Number as Clone>::clone ](n: &serde_json::Number) -> (out:
    serde_json::Number)
    ensures
        out == *n,
;

/// `serde_json::Number::as_i64` gives the integer that the number holds, where it is one that
/// an `i64` can hold.
#[verifier::external_body]
fn number_as_i64(n: &serde_json::Number) -> (out: Option<i64>)
    ensures
        out == (match integer_of(*n) {
            Some(i) if i64::MIN <= i <= i64::MAX => Some(i as i64),
            _ => None::<i64>,
        }),
{
    n.as_i64()
}

/// `serde_json::Number::from` makes the number that holds the given integer.
#[verifier::external_body]
fn number_from_i64(i: i64) -> (out: serde_json::Number)
    ensures
        integer_of(out) == Some(i as int),
{
    serde_json::Number::from(i)
}

/// One layer of a `serde_json::Value`.
pub enum Layer {
    Null,
    Bool(bool),
    Number(serde_json::Number),
    Str(String),
    Array(Vec<serde_json::Value>),
    Object(Vec<(String, serde_json::Value)>),
}

/// What a layer holds, with what the values below it hold.
pub open spec fn layer_content(layer: Layer) -> JsonV {
    match layer {
        Layer::Null => JsonV::Null,
        Layer::Bool(b) => JsonV::Bool(b),
        Layer::Number(n) => JsonV::Num(number_view(n)),
        Layer::Str(s) => JsonV::Str(s@),
        Layer::Array(items) => JsonV::Arr(Seq::new(items@.len(), |i: int| content(items@[i]))),
        Layer::Object(fields) => JsonV::Obj(
            keyed(Seq::new(fields@.len(), |i: int| (fields@[i].0@, content(fields@[i].1)))),
        ),
    }
}

/// Takes a `serde_json::Value` apart: the variants are those of the value, a `serde_json::Map`
/// becomes the list of its entries, no two of which have one key.
#[verifier::external_body]
fn open_value(v: serde_json::Value) -> (out: Layer)
    ensures
        layer_content(out) == content(v),
        out matches Layer::Object(fields) ==> forall|i: int, j: int|
            0 <= i < j < fields@.len() ==> fields@[i].0@ != fields@[j].0@,
{
    match v {
        serde_json::Value::Null => Layer::Null,
        serde_json::Value::Bool(b) => Layer::Bool(b),
        serde_json::Value::Number(n) => Layer::Number(n),
        serde_json::Value::String(s) => Layer::Str(s),
        serde_json::Value::Array(items) => Layer::Array(items),
        serde_json::Value::Object(map) => Layer::Object(map.into_iter().collect()),
    }
}

/// Puts a `serde_json::Value` together. A `serde_json::Map` is filled from the list of entries
/// in its order: of two entries with one key the later one stays.
#[verifier::external_body]
fn close_value(layer: Layer) -> (out: serde_json::Value)
    ensures
        content(out) == layer_content(layer),
{
    match layer {
        Layer::Null => serde_json::Value::Null,
        Layer::Bool(b) => serde_json::Value::Bool(b),
        Layer::Number(n) => serde_json::Value::Number(n),
        Layer::Str(s) => serde_json::Value::String(s),
        Layer::Array(items) => serde_json::Value::Array(items),
        Layer::Object(fields) => serde_json::Value::Object(fields.into_iter().collect()),
    }
}

/// `serde_json::from_str`, into a `serde_json::Value`.
#[verifier::external_body]
fn value_from_str(text: &str) -> (out: Result<serde_json::Value, serde_json::Error>)
    ensures
        parsed(text@) == (match out {
            Ok(v) => Some(content(v)),
            Err(_) => None::<JsonV>,
        }),
{
    serde_json::from_str::<serde_json::Value>(text)
}

/// The `Display` of `serde_json::Error`: a text that depends on the error alone.
#[verifier::external_body]
pub(crate) fn error_text(e: &serde_json::Error) -> (out: String)
    ensures
        out@ == error_message(*e),
{
    e.to_string()
}

/// A value without floats in which no more than `depth` lists and objects stand in one another.
pub open spec fn plain(v: JsonV, depth: nat) -> bool
    decreases depth,
{
    match v {
        JsonV::Num(NumV::Float(_)) => false,
        JsonV::Arr(items) => depth > 0 && forall|i: int|
            0 <= i < items.len() ==> plain(#[trigger] items[i], (depth - 1) as nat),
        JsonV::Obj(m) => depth > 0 && forall|k: Seq<char>| #[trigger]
            m.contains_key(k) ==> plain(m[k], (depth - 1) as nat),
        _ => true,
    }
}

/// A text with something in it, no white space at its ends and no line end within.
pub open spec fn one_line(s: Seq<char>) -> bool {
    &&& s.len() > 0
    &&& !is_space(s[0])
    &&& !is_space(s.last())
    &&& forall|i: int| 0 <= i < s.len() ==> #[trigger] s[i] != '\n' && s[i] != '\r'
}

/// `serde_json::to_string` of a `serde_json::Value`: it does not fail, as every key of a
/// `serde_json::Map` is a string and no `serde_json::Number` is infinite. The entries of a map
/// are written in the order of their keys, so the text depends on what the value holds alone.
/// Control characters are escaped and nothing stands between the parts of a value, so the text is
/// one line. `serde_json::from_str` reads it back as the value, up to the depth that it admits; of
/// floats this is not claimed.
#[verifier::external_body]
fn value_to_string(v: &serde_json::Value) -> (out: Result<String, serde_json::Error>)
    ensures
        out is Ok,
        out->Ok_0@ == compact_text(content(*v)),
        one_line(out->Ok_0@),
        plain(content(*v), 127) ==> parsed(out->Ok_0@) == Some(content(*v)),
{
    serde_json::to_string(v)
}

/// `serde_json::to_string_pretty` of a `serde_json::Value`, which does not fail either and is
/// read back in the same way.
#[verifier::external_body]
fn value_to_string_pretty(v: &serde_json::Value) -> (out: Result<String, serde_json::Error>)
    ensures
        out is Ok,
        out->Ok_0@ == pretty_text(content(*v)),
        plain(content(*v), 127) ==> parsed(out->Ok_0@) == Some(content(*v)),
{
    serde_json::to_string_pretty(v)
}

// ---------------------------------------------------------------------------
// The value and what it stands for

#[derive(Debug, PartialEq)]
pub enum Json {
    Null,
    Bool(bool),
    Number(serde_json::Number),
    Str(String),
    Array(Vec<Json>),
    /// The fields as they are written; of two with one key the later one counts.
    Object(Vec<(String, Json)>),
}

/// A number: an integer, or a float that is carried through as it is.
pub enum NumV {
    Int(int),
    Float(serde_json::Number),
}

pub enum JsonV {
    Null,
    Bool(bool),
    Num(NumV),
    Str(Seq<char>),
    Arr(Seq<JsonV>),
    Obj(Map<Seq<char>, JsonV>),
}

pub open spec fn number_view(n: serde_json::Number) -> NumV {
    match integer_of(n) {
        Some(i) => NumV::Int(i),
        None => NumV::Float(n),
    }
}

/// The map of a list of entries: a later entry takes the place of an earlier one with its key.
pub open spec fn keyed(entries: Seq<(Seq<char>, JsonV)>) -> Map<Seq<char>, JsonV>
    decreases entries.len(),
{
    if entries.len() == 0 {
        Map::empty()
    } else {
        keyed(entries.drop_last()).insert(entries.last().0, entries.last().1)
    }
}

impl View for Json {
    type V = JsonV;

    open spec fn view(&self) -> JsonV
        decreases self,
    {
        match self {
            Json::Null => JsonV::Null,
            Json::Bool(b) => JsonV::Bool(*b),
            Json::Number(n) => JsonV::Num(number_view(*n)),
            Json::Str(s) => JsonV::Str(s@),
            Json::Array(items) => JsonV::Arr(items_view(items@)),
            Json::Object(fields) => JsonV::Obj(fields_view(fields@)),
        }
    }
}

pub open spec fn items_view(items: Seq<Json>) -> Seq<JsonV>
    decreases items,
{
    if items.len() == 0 {
        Seq::empty()
    } else {
        items_view(items.drop_last()).push(items.last()@)
    }
}

pub open spec fn fields_view(fields: Seq<(String, Json)>) -> Map<Seq<char>, JsonV>
    decreases fields,
{
    if fields.len() == 0 {
        Map::empty()
    } else {
        fields_view(fields.drop_last()).insert(fields.last().0@, fields.last().1@)
    }
}


pub proof fn lemma_items_view(items: Seq<Json>)
    ensures
        items_view(items).len() == items.len(),
        forall|i: int| 0 <= i < items.len() ==> #[trigger] items_view(items)[i] == items[i]@,
    decreases items.len(),
{
    if items.len() > 0 {
        let init = items.drop_last();
        lemma_items_view(init);
        assert(items_view(items) == items_view(init).push(items.last()@));
        assert forall|i: int| 0 <= i < items.len() implies #[trigger] items_view(items)[i]
            == items[i]@ by {
            if i < init.len() {
                assert(items_view(init)[i] == init[i]@);
            }
        }
    } else {
        assert(items_view(items) == Seq::<JsonV>::empty());
    }
}

pub proof fn lemma_items_push(items: Seq<Json>, item: Json)
    ensures
        items_view(items.push(item)) == items_view(items).push(item@),
{
    assert(items.push(item).drop_last() =~= items);
}

pub proof fn lemma_fields_push(fields: Seq<(String, Json)>, field: (String, Json))
    ensures
        fields_view(fields.push(field)) == fields_view(fields).insert(field.0@, field.1@),
{
    assert(fields.push(field).drop_last() =~= fields);
}

proof fn lemma_keyed_push(entries: Seq<(Seq<char>, JsonV)>, entry: (Seq<char>, JsonV))
    ensures
        keyed(entries.push(entry)) == keyed(entries).insert(entry.0, entry.1),
{
    assert(entries.push(entry).drop_last() =~= entries);
}

proof fn lemma_keyed_distinct(entries: Seq<(Seq<char>, JsonV)>)
    requires
        forall|i: int, j: int| 0 <= i < j < entries.len() ==> entries[i].0 != entries[j].0,
    ensures
        keyed(entries).dom().finite(),
        forall|i: int|
            0 <= i < entries.len() ==> keyed(entries).contains_key(#[trigger] entries[i].0)
                && keyed(entries)[entries[i].0] == entries[i].1,
    decreases entries.len(),
{
    if entries.len() > 0 {
        let init = entries.drop_last();
        lemma_keyed_distinct(init);
        assert forall|i: int| 0 <= i < entries.len() implies keyed(entries).contains_key(
            #[trigger] entries[i].0,
        ) && keyed(entries)[entries[i].0] == entries[i].1 by {
            if i < init.len() {
                assert(init[i] == entries[i]);
            }
        }
    }
}

// ---------------------------------------------------------------------------
// To serde_json and back

/// The value that a `serde_json::Value` holds.
pub fn from_value(v: serde_json::Value) -> (out: Json)
    ensures
        out@ == content(v),
    decreases content(v),
{
    let ghost whole = content(v);
    match open_value(v) {
        Layer::Null => Json::Null,
        Layer::Bool(b) => Json::Bool(b),
        Layer::Number(n) => Json::Number(n),
        Layer::Str(s) => Json::Str(s),
        Layer::Array(items) => {
            let ghost all = items@;
            let ghost below = Seq::new(all.len(), |i: int| content(all[i]));
            let mut out: Vec<Json> = Vec::new();
            for item in it: items
                invariant
                    it.seq() == all,
                    whole == content(v),
                    whole == JsonV::Arr(below),
                    below == Seq::new(all.len(), |i: int| content(all[i])),
                    items_view(out@) == below.take(it.index() as int),
            {
                assert(below[it.index() as int] == content(item));
                assert(decreases_to!(whole => whole->Arr_0));
                assert(decreases_to!(whole->Arr_0 => whole->Arr_0[it.index() as int]));
                let json = from_value(item);
                proof {
                    lemma_items_push(out@, json);
                }
                out.push(json);
            }
            assert(below.take(all.len() as int) =~= below);
            Json::Array(out)
        },
        Layer::Object(fields) => {
            let ghost all = fields@;
            let ghost entries = Seq::new(all.len(), |i: int| (all[i].0@, content(all[i].1)));
            let mut out: Vec<(String, Json)> = Vec::new();
            proof {
                lemma_keyed_distinct(entries);
            }
            for field in it: fields
                invariant
                    it.seq() == all,
                    whole == content(v),
                    whole == JsonV::Obj(keyed(entries)),
                    keyed(entries).dom().finite(),
                    forall|i: int|
                        0 <= i < entries.len() ==> keyed(entries).contains_key(
                            #[trigger] entries[i].0,
                        ) && keyed(entries)[entries[i].0] == entries[i].1,
                    entries == Seq::new(all.len(), |i: int| (all[i].0@, content(all[i].1))),
                    fields_view(out@) == keyed(entries.take(it.index() as int)),
            {
                let ghost k = it.index() as int;
                assert(entries[k] == (field.0@, content(field.1)));
                assert(decreases_to!(whole => whole->Obj_0));
                assert(decreases_to!(whole->Obj_0 => whole->Obj_0[entries[k].0]));
                let (key, value) = field;
                let json = from_value(value);
                proof {
                    lemma_fields_push(out@, (key, json));
                    lemma_keyed_push(entries.take(k), entries[k]);
                    assert(entries.take(k + 1) =~= entries.take(k).push(entries[k]));
                }
                out.push((key, json));
            }
            assert(entries.take(all.len() as int) =~= entries);
            Json::Object(out)
        },
    }
}

impl Json {
    /// The `serde_json::Value` that holds this value.
    pub fn to_value(&self) -> (out: serde_json::Value)
        ensures
            content(out) == self@,
        decreases self,
    {
        match self {
            Json::Null => close_value(Layer::Null),
            Json::Bool(b) => close_value(Layer::Bool(*b)),
            Json::Number(n) => close_value(Layer::Number(n.clone())),
            Json::Str(s) => close_value(Layer::Str(s.clone())),
            Json::Array(items) => {
                let mut out: Vec<serde_json::Value> = Vec::new();
                let mut i: usize = 0;
                while i < items.len()
                    invariant
                        i <= items.len(),
                        self == Json::Array(*items),
                        out.len() == i,
                        forall|j: int| 0 <= j < i ==> content(out@[j]) == items@[j]@,
                    decreases items.len() - i,
                {
                    assert(decreases_to!(self => self->Array_0@[i as int]));
                    out.push(items[i].to_value());
                    i += 1;
                }
                proof {
                    lemma_items_view(items@);
                    assert(Seq::new(out@.len(), |j: int| content(out@[j])) =~= items_view(items@));
                }
                close_value(Layer::Array(out))
            },
            Json::Object(fields) => {
                let mut out: Vec<(String, serde_json::Value)> = Vec::new();
                let mut i: usize = 0;
                let ghost mut entries: Seq<(Seq<char>, JsonV)> = Seq::empty();
                assert(fields@.take(0) =~= Seq::<(String, Json)>::empty());
                while i < fields.len()
                    invariant
                        i <= fields.len(),
                        self == Json::Object(*fields),
                        out.len() == i,
                        entries == Seq::new(out@.len(), |j: int| (out@[j].0@, content(out@[j].1))),
                        keyed(entries) == fields_view(fields@.take(i as int)),
                    decreases fields.len() - i,
                {
                    assert(decreases_to!(self => self->Object_0@[i as int].1));
                    let key = fields[i].0.clone();
                    let value = fields[i].1.to_value();
                    proof {
                        let entry = (key@, content(value));
                        lemma_keyed_push(entries, entry);
                        entries = entries.push(entry);
                        assert(fields@.take(i + 1).drop_last() =~= fields@.take(i as int));
                    }
                    out.push((key, value));
                    assert(entries =~= Seq::new(
                        out@.len(),
                        |j: int| (out@[j].0@, content(out@[j].1)),
                    ));
                    i += 1;
                }
                assert(fields@.take(i as int) =~= fields@);
                close_value(Layer::Object(out))
            },
        }
    }

    /// Reads a JSON text, and says what is wrong with one that is not JSON.
    pub fn read(text: &str) -> (out: Result<Json, serde_json::Error>)
        ensures
            parsed(text@) == (match out {
                Ok(v) => Some(v@),
                Err(_) => None,
            }),
    {
        match value_from_str(text) {
            Ok(v) => Ok(from_value(v)),
            Err(e) => Err(e),
        }
    }

    /// Reads a JSON text.
    pub fn parse(text: &str) -> (out: Option<Json>)
        ensures
            opt_view(out) == parsed(text@),
    {
        match value_from_str(text) {
            Ok(v) => Some(from_value(v)),
            Err(_) => None,
        }
    }

    /// Writes the value as JSON on one line.
    pub fn text(&self) -> (out: String)
        ensures
            out@ == compact_text(self@),
            one_line(out@),
            plain(self@, 127) ==> parsed(out@) == Some(self@),
    {
        match value_to_string(&self.to_value()) {
            Ok(s) => s,
            Err(_) => String::new(),
        }
    }

    /// Writes the value as indented JSON.
    pub fn pretty(&self) -> (out: String)
        ensures
            out@ == pretty_text(self@),
            plain(self@, 127) ==> parsed(out@) == Some(self@),
    {
        match value_to_string_pretty(&self.to_value()) {
            Ok(s) => s,
            Err(_) => String::new(),
        }
    }
}

pub open spec fn opt_view(o: Option<Json>) -> Option<JsonV> {
    match o {
        Some(v) => Some(v@),
        None => None,
    }
}

pub open spec fn opt_ref(o: Option<&Json>) -> Option<JsonV> {
    match o {
        Some(v) => Some(v@),
        None => None,
    }
}


// ---------------------------------------------------------------------------
// Reading

impl JsonV {
    /// The field of an object; none where there is no such field or the value is no object.
    pub open spec fn get(self, key: Seq<char>) -> Option<JsonV> {
        match self {
            JsonV::Obj(m) if m.contains_key(key) => Some(m[key]),
            _ => None,
        }
    }

    pub open spec fn as_str(self) -> Option<Seq<char>> {
        match self {
            JsonV::Str(s) => Some(s),
            _ => None,
        }
    }

    pub open spec fn as_bool(self) -> Option<bool> {
        match self {
            JsonV::Bool(b) => Some(b),
            _ => None,
        }
    }

    pub open spec fn as_arr(self) -> Option<Seq<JsonV>> {
        match self {
            JsonV::Arr(items) => Some(items),
            _ => None,
        }
    }

    /// The number, where it is an integer that an `i64` can hold.
    pub open spec fn as_i64(self) -> Option<i64> {
        match self {
            JsonV::Num(NumV::Int(i)) if i64::MIN <= i <= i64::MAX => Some(i as i64),
            _ => None,
        }
    }

    /// The text in a field.
    pub open spec fn str_at(self, key: Seq<char>) -> Option<Seq<char>> {
        match self.get(key) {
            Some(v) => v.as_str(),
            None => None,
        }
    }

    /// The text in a field, or the given one where the field holds none.
    pub open spec fn str_or(self, key: Seq<char>, default: Seq<char>) -> Seq<char> {
        match self.str_at(key) {
            Some(s) => s,
            None => default,
        }
    }

    /// The items of the list in a field.
    pub open spec fn arr_at(self, key: Seq<char>) -> Option<Seq<JsonV>> {
        match self.get(key) {
            Some(v) => v.as_arr(),
            None => None,
        }
    }

    pub open spec fn i64_at(self, key: Seq<char>) -> Option<i64> {
        match self.get(key) {
            Some(v) => v.as_i64(),
            None => None,
        }
    }

    /// The field of an object that is itself a field.
    pub open spec fn within(self, outer: Seq<char>, inner: Seq<char>) -> Option<JsonV> {
        match self.get(outer) {
            Some(v) => v.get(inner),
            None => None,
        }
    }

    /// A part of a record: the field of an object, or the item of a list.
    pub open spec fn part(self, key: Seq<char>, at: int) -> Option<JsonV> {
        match self {
            JsonV::Obj(m) if m.contains_key(key) => Some(m[key]),
            JsonV::Arr(items) if 0 <= at < items.len() => Some(items[at]),
            _ => None,
        }
    }

    /// The value is no list of more than `n` items.
    pub open spec fn is_within(self, n: nat) -> bool {
        self matches JsonV::Arr(items) ==> items.len() <= n
    }

    /// The text in a part of a record.
    pub open spec fn str_part(self, key: Seq<char>, at: int) -> Option<Seq<char>> {
        match self.part(key, at) {
            Some(v) => v.as_str(),
            None => None,
        }
    }

    /// The value with a field put into it, where it is an object.
    pub open spec fn put(self, key: Seq<char>, value: JsonV) -> JsonV {
        match self {
            JsonV::Obj(m) => JsonV::Obj(m.insert(key, value)),
            other => other,
        }
    }
}

spec fn at(m: Map<Seq<char>, JsonV>, key: Seq<char>) -> Option<JsonV> {
    if m.contains_key(key) {
        Some(m[key])
    } else {
        None
    }
}

impl Json {
    pub fn get(&self, key: &str) -> (out: Option<&Json>)
        ensures
            opt_ref(out) == self@.get(key@),
    {
        match self {
            Json::Object(fields) => {
                let mut i: usize = fields.len();
                assert(fields@.take(i as int) =~= fields@);
                while i > 0
                    invariant
                        i <= fields.len(),
                        self@ == JsonV::Obj(fields_view(fields@)),
                        at(fields_view(fields@), key@) == at(
                            fields_view(fields@.take(i as int)),
                            key@,
                        ),
                    decreases i,
                {
                    proof {
                        let seen = fields@.take(i as int);
                        assert(seen.drop_last() =~= fields@.take(i - 1));
                        assert(fields_view(seen) == fields_view(seen.drop_last()).insert(
                            seen.last().0@,
                            seen.last().1@,
                        ));
                    }
                    i -= 1;
                    if same(fields[i].0.as_str(), key) {
                        return Some(&fields[i].1);
                    }
                }
                assert(fields_view(fields@.take(0)) == Map::<Seq<char>, JsonV>::empty());
                None
            },
            _ => None,
        }
    }

    pub fn as_str(&self) -> (out: Option<&str>)
        ensures
            opt_str(out) == self@.as_str(),
    {
        match self {
            Json::Str(s) => Some(s.as_str()),
            _ => None,
        }
    }

    pub fn as_bool(&self) -> (out: Option<bool>)
        ensures
            out == self@.as_bool(),
    {
        match self {
            Json::Bool(b) => Some(*b),
            _ => None,
        }
    }

    pub fn as_array(&self) -> (out: Option<&Vec<Json>>)
        ensures
            match out {
                Some(items) => self@.as_arr() == Some(items_view(items@)),
                None => self@.as_arr() is None,
            },
    {
        match self {
            Json::Array(items) => Some(items),
            _ => None,
        }
    }

    pub fn as_i64(&self) -> (out: Option<i64>)
        ensures
            out == self@.as_i64(),
    {
        match self {
            Json::Number(n) => number_as_i64(n),
            _ => None,
        }
    }

    pub fn str_at(&self, key: &str) -> (out: Option<&str>)
        ensures
            opt_str(out) == self@.str_at(key@),
    {
        match self.get(key) {
            Some(v) => v.as_str(),
            None => None,
        }
    }

    pub fn str_or<'a>(&'a self, key: &str, default: &'a str) -> (out: &'a str)
        ensures
            out@ == self@.str_or(key@, default@),
    {
        match self.str_at(key) {
            Some(s) => s,
            None => default,
        }
    }

    pub fn array_at(&self, key: &str) -> (out: Option<&Vec<Json>>)
        ensures
            match out {
                Some(items) => self@.arr_at(key@) == Some(items_view(items@)),
                None => self@.arr_at(key@) is None,
            },
    {
        match self.get(key) {
            Some(v) => v.as_array(),
            None => None,
        }
    }

    pub fn i64_at(&self, key: &str) -> (out: Option<i64>)
        ensures
            out == self@.i64_at(key@),
    {
        match self.get(key) {
            Some(v) => v.as_i64(),
            None => None,
        }
    }

    pub fn part(&self, key: &str, at: usize) -> (out: Option<&Json>)
        ensures
            opt_ref(out) == self@.part(key@, at as int),
    {
        match self {
            Json::Array(items) => {
                proof {
                    lemma_items_view(items@);
                }
                if at < items.len() {
                    Some(&items[at])
                } else {
                    None
                }
            },
            _ => self.get(key),
        }
    }

    pub fn is_within(&self, n: usize) -> (out: bool)
        ensures
            out == self@.is_within(n as nat),
    {
        match self {
            Json::Array(items) => {
                proof {
                    lemma_items_view(items@);
                }
                items.len() <= n
            },
            _ => true,
        }
    }

    pub fn str_part(&self, key: &str, at: usize) -> (out: Option<&str>)
        ensures
            opt_str(out) == self@.str_part(key@, at as int),
    {
        match self.part(key, at) {
            Some(v) => v.as_str(),
            None => None,
        }
    }

    /// The least key of an object, which comes first where the keys are walked in their order.
    pub fn first_key(&self) -> (out: Option<&str>)
        ensures
            opt_str(out) == first_key_of(self@),
    {
        let out = self.least_key();
        proof {
            lemma_first_key(self@, opt_str(out));
        }
        out
    }

    fn least_key(&self) -> (out: Option<&str>)
        ensures
            is_first_key(self@, opt_str(out)),
    {
        match self {
            Json::Object(fields) => {
                if fields.len() == 0 {
                    return None;
                }
                let mut best: usize = 0;
                let mut i: usize = 1;
                proof {
                    lemma_keys(fields@);
                    crate::chars::lemma_precedes_total(fields@[0].0@, fields@[0].0@);
                }
                while i < fields.len()
                    invariant
                        best < i <= fields.len(),
                        forall|j: int|
                            0 <= j < i ==> !precedes(#[trigger] fields@[j].0@, fields@[best as int].0@),
                    decreases fields.len() - i,
                {
                    if text_precedes(fields[i].0.as_str(), fields[best].0.as_str()) {
                        proof {
                            assert forall|j: int| 0 <= j < i + 1 implies !precedes(
                                #[trigger] fields@[j].0@,
                                fields@[i as int].0@,
                            ) by {
                                let a = fields@[j].0@;
                                let b = fields@[i as int].0@;
                                let c = fields@[best as int].0@;
                                crate::chars::lemma_precedes_total(b, b);
                                if j < i && precedes(a, b) {
                                    crate::chars::lemma_precedes_transitive(a, b, c);
                                }
                            }
                        }
                        best = i;
                    }
                    i += 1;
                }
                Some(fields[best].0.as_str())
            },
            _ => None,
        }
    }

    /// A copy of the value.
    pub fn copy(&self) -> (out: Json)
        ensures
            out@ == self@,
    {
        from_value(self.to_value())
    }
}

/// The key is one of the object's, and none of them precedes it; there is none where the value
/// is no object or an empty one.
pub open spec fn is_first_key(v: JsonV, key: Option<Seq<char>>) -> bool {
    match (v, key) {
        (JsonV::Obj(m), Some(k)) => m.contains_key(k) && forall|other: Seq<char>|
            #[trigger] m.contains_key(other) ==> !precedes(other, k),
        (JsonV::Obj(m), None) => m.dom() == Set::<Seq<char>>::empty(),
        (_, k) => k is None,
    }
}

/// The least key of an object.
pub open spec fn first_key_of(v: JsonV) -> Option<Seq<char>> {
    choose|key: Option<Seq<char>>| is_first_key(v, key)
}

/// An object has one least key.
pub proof fn lemma_first_key(v: JsonV, key: Option<Seq<char>>)
    requires
        is_first_key(v, key),
    ensures
        first_key_of(v) == key,
{
    let other = first_key_of(v);
    assert(is_first_key(v, other));
    if let JsonV::Obj(m) = v {
        match (key, other) {
            (Some(a), Some(b)) => {
                crate::chars::lemma_precedes_total(a, b);
            },
            (Some(a), None) => {
                assert(m.dom().contains(a));
            },
            (None, Some(b)) => {
                assert(m.dom().contains(b));
            },
            (None, None) => {},
        }
    }
}

pub proof fn lemma_keys(fields: Seq<(String, Json)>)
    ensures
        forall|i: int| 0 <= i < fields.len() ==> fields_view(fields).contains_key(#[trigger] fields[i].0@),
        forall|k: Seq<char>| #[trigger]
            fields_view(fields).contains_key(k) ==> exists|i: int|
                0 <= i < fields.len() && #[trigger] fields[i].0@ == k,
    decreases fields.len(),
{
    if fields.len() > 0 {
        let init = fields.drop_last();
        lemma_keys(init);
        assert(fields_view(fields) == fields_view(init).insert(
            fields.last().0@,
            fields.last().1@,
        ));
        assert forall|i: int| 0 <= i < fields.len() implies fields_view(fields).contains_key(
            #[trigger] fields[i].0@,
        ) by {
            if i < init.len() {
                assert(init[i] == fields[i]);
            }
        }
        assert forall|k: Seq<char>| #[trigger] fields_view(fields).contains_key(k) implies exists|
            i: int,
        |
            0 <= i < fields.len() && #[trigger] fields[i].0@ == k by {
            if k == fields.last().0@ {
                assert(fields[fields.len() - 1].0@ == k);
            } else {
                let i = choose|i: int| 0 <= i < init.len() && #[trigger] init[i].0@ == k;
                assert(fields[i].0@ == k);
            }
        }
    }
}

// ---------------------------------------------------------------------------
// Building

pub open spec fn jstr(s: Seq<char>) -> JsonV {
    JsonV::Str(s)
}

pub open spec fn jint(i: int) -> JsonV {
    JsonV::Num(NumV::Int(i))
}

/// The text, or null where there is none.
pub open spec fn jopt(s: Option<Seq<char>>) -> JsonV {
    match s {
        Some(s) => JsonV::Str(s),
        None => JsonV::Null,
    }
}

impl Json {
    pub fn string(s: &str) -> (out: Json)
        ensures
            out@ == jstr(s@),
    {
        Json::Str(s.to_owned())
    }

    pub fn integer(i: i64) -> (out: Json)
        ensures
            out@ == jint(i as int),
    {
        Json::Number(number_from_i64(i))
    }

    pub fn opt(s: Option<&str>) -> (out: Json)
        ensures
            out@ == jopt(opt_str(s)),
    {
        match s {
            Some(s) => Json::string(s),
            None => Json::Null,
        }
    }

    pub fn object() -> (out: Json)
        ensures
            out@ == JsonV::Obj(Map::empty()),
    {
        Json::Object(Vec::new())
    }

    /// Puts a field into an object, in place of one that has its key.
    pub fn with(self, key: &str, value: Json) -> (out: Json)
        ensures
            out@ == self@.put(key@, value@),
    {
        match self {
            Json::Object(fields) => {
                let ghost all = fields@;
                let mut kept: Vec<(String, Json)> = Vec::new();
                for field in it: fields
                    invariant
                        it.seq() == all,
                        fields_view(kept@).remove(key@) == fields_view(
                            all.take(it.index() as int),
                        ).remove(key@),
                {
                    proof {
                        let k = it.index() as int;
                        assert(all.take(k + 1) =~= all.take(k).push(all[k]));
                        lemma_fields_push(all.take(k), all[k]);
                        lemma_fields_push(kept@, field);
                        let was = fields_view(kept@);
                        let seen = fields_view(all.take(k));
                        if field.0@ == key@ {
                            assert(seen.insert(field.0@, field.1@).remove(key@) =~= seen.remove(key@));
                        } else {
                            assert(seen.insert(field.0@, field.1@).remove(key@) =~= seen.remove(
                                key@,
                            ).insert(field.0@, field.1@));
                            assert(was.insert(field.0@, field.1@).remove(key@) =~= was.remove(
                                key@,
                            ).insert(field.0@, field.1@));
                        }
                    }
                    if !same(field.0.as_str(), key) {
                        kept.push(field);
                    }
                }
                let key_text = key.to_owned();
                proof {
                    assert(all.take(all.len() as int) =~= all);
                    lemma_fields_push(kept@, (key_text, value));
                    let was = fields_view(kept@);
                    assert(was.insert(key@, value@) =~= was.remove(key@).insert(key@, value@));
                    assert(fields_view(all).insert(key@, value@) =~= fields_view(all).remove(
                        key@,
                    ).insert(key@, value@));
                }
                kept.push((key_text, value));
                Json::Object(kept)
            },
            other => other,
        }
    }

    pub fn empty_list() -> (out: Json)
        ensures
            out@ == JsonV::Arr(Seq::empty()),
    {
        Json::Array(Vec::new())
    }

    pub fn list_of(item: Json) -> (out: Json)
        ensures
            out@ == JsonV::Arr(seq![item@]),
    {
        let mut items: Vec<Json> = Vec::new();
        proof {
            lemma_items_push(items@, item);
        }
        items.push(item);
        Json::Array(items)
    }
}

} // verus!
