//! JSON values as plain data: reading their parts, and taking them from and to text.
use vstd::prelude::*;

use crate::text;
use crate::views::{opt_view, views, views_push};

verus! {

/// `serde_json::Number`, which is only carried along here.
#[verifier::external_type_specification]
#[verifier::external_body]
pub struct ExNumber(serde_json::Number);

/// `<serde_json::Number as Clone>::clone` gives the same number.
pub assume_specification[ <serde_json::Number as Clone>::clone ](n: &serde_json::Number) -> (r:
    serde_json::Number)
    ensures
        r == *n,
;

/// The integer that a `serde_json::Number` is, where it is one.
pub uninterp spec fn whole_number(n: serde_json::Number) -> Option<int>;

/// `serde_json::Number::as_i64` gives the integer that the number is, where 64 bits with a sign
/// hold it, and nothing for any other number.
pub assume_specification[ serde_json::Number::as_i64 ](n: &serde_json::Number) -> (r: Option<i64>)
    ensures
        r == int_in(number_model(*n)),
;

/// `serde_json::Number::as_u64` gives the integer that the number is, where 64 bits without a
/// sign hold it, and nothing for any other number.
pub assume_specification[ serde_json::Number::as_u64 ](n: &serde_json::Number) -> (r: Option<u64>)
    ensures
        r == uint_in(number_model(*n)),
;

/// `<serde_json::Number as From<i64>>::from` gives the number that is the integer.
#[verifier::external_body]
pub(crate) fn signed_number(i: i64) -> (r: serde_json::Number)
    ensures
        whole_number(r) == Some(i as int),
{
    i.into()
}

/// `<serde_json::Number as From<u64>>::from` gives the number that is the integer.
#[verifier::external_body]
pub(crate) fn unsigned_number(u: u64) -> (r: serde_json::Number)
    ensures
        whole_number(r) == Some(u as int),
{
    u.into()
}

/// The value of a number: the integer that it is, or the number itself where it is none.
pub open spec fn number_model(n: serde_json::Number) -> JsonModel {
    match whole_number(n) {
        Some(i) => JsonModel::Int(i),
        None => JsonModel::Float(n),
    }
}

/// A JSON value.
#[derive(Debug, PartialEq, Eq)]
pub enum Json {
    Null,
    Bool(bool),
    /// A whole number with a sign, of up to 64 bits.
    Int(i64),
    /// A whole number of 64 bits that does not fit where there is a sign.
    Uint(u64),
    /// Any other number; a whole one here is the same as under `Int` or `Uint`.
    Float(serde_json::Number),
    Str(String),
    Array(Vec<Json>),
    /// The entries of an object; of two under one name the last one counts.
    Object(Vec<(String, Json)>),
}

/// The value of a `Json`.
#[verifier::ext_equal]
pub enum JsonModel {
    Null,
    Bool(bool),
    Int(int),
    Float(serde_json::Number),
    Str(Seq<char>),
    Array(Seq<JsonModel>),
    Object(Map<Seq<char>, JsonModel>),
}

/// The value of a `Json`.
pub open spec fn model_of(j: Json) -> JsonModel
    decreases j,
{
    match j {
        Json::Null => JsonModel::Null,
        Json::Bool(b) => JsonModel::Bool(b),
        Json::Int(i) => JsonModel::Int(i as int),
        Json::Uint(u) => JsonModel::Int(u as int),
        Json::Float(n) => number_model(n),
        Json::Str(s) => JsonModel::Str(s@),
        Json::Array(items) => JsonModel::Array(models_of(items@)),
        Json::Object(entries) => JsonModel::Object(entries_of(entries@)),
    }
}

/// The values of the items of an array.
pub open spec fn models_of(items: Seq<Json>) -> Seq<JsonModel>
    decreases items,
{
    if items.len() == 0 {
        Seq::empty()
    } else {
        models_of(items.drop_last()).push(model_of(items.last()))
    }
}

/// The values of the entries of an object.
pub open spec fn entries_of(entries: Seq<(String, Json)>) -> Map<Seq<char>, JsonModel>
    decreases entries,
{
    if entries.len() == 0 {
        Map::empty()
    } else {
        entries_of(entries.drop_last()).insert(entries.last().0@, model_of(entries.last().1))
    }
}

impl View for Json {
    type V = JsonModel;

    open spec fn view(&self) -> JsonModel {
        model_of(*self)
    }
}

/// The values of the items are those of each item.
pub proof fn models_are_views(items: Seq<Json>)
    ensures
        models_of(items) == views(items),
    decreases items,
{
    if items.len() > 0 {
        models_are_views(items.drop_last());
        assert(items =~= items.drop_last().push(items.last()));
        views_push(items.drop_last(), items.last());
    }
    assert(models_of(items) =~= views(items));
}

/// What stands under a name in an object.
pub open spec fn field(j: JsonModel, key: Seq<char>) -> Option<JsonModel> {
    match j {
        JsonModel::Object(m) => if m.contains_key(key) {
            Some(m[key])
        } else {
            None
        },
        _ => None,
    }
}

/// The text that a value is.
pub open spec fn text_in(j: JsonModel) -> Option<Seq<char>> {
    match j {
        JsonModel::Str(s) => Some(s),
        _ => None,
    }
}

/// The integer that a value is, where 64 bits with a sign hold it.
pub open spec fn int_in(j: JsonModel) -> Option<i64> {
    match j {
        JsonModel::Int(i) => if i64::MIN <= i <= i64::MAX {
            Some(i as i64)
        } else {
            None
        },
        _ => None,
    }
}

/// The integer that a value is, where 64 bits without a sign hold it.
pub open spec fn uint_in(j: JsonModel) -> Option<u64> {
    match j {
        JsonModel::Int(i) => if 0 <= i <= u64::MAX {
            Some(i as u64)
        } else {
            None
        },
        _ => None,
    }
}

/// The truth value that a value is.
pub open spec fn bool_in(j: JsonModel) -> Option<bool> {
    match j {
        JsonModel::Bool(b) => Some(b),
        _ => None,
    }
}

/// The items of a value that is an array.
pub open spec fn items_in(j: JsonModel) -> Option<Seq<JsonModel>> {
    match j {
        JsonModel::Array(items) => Some(items),
        _ => None,
    }
}

/// The text under a name.
pub open spec fn field_text(j: JsonModel, key: Seq<char>) -> Option<Seq<char>> {
    match field(j, key) {
        Some(v) => text_in(v),
        None => None,
    }
}

/// The text under a name, or another one.
pub open spec fn field_text_or(j: JsonModel, key: Seq<char>, other: Seq<char>) -> Seq<char> {
    match field_text(j, key) {
        Some(s) => s,
        None => other,
    }
}

/// The integer under a name.
pub open spec fn field_int(j: JsonModel, key: Seq<char>) -> Option<i64> {
    match field(j, key) {
        Some(v) => int_in(v),
        None => None,
    }
}

/// The truth value under a name.
pub open spec fn field_bool(j: JsonModel, key: Seq<char>) -> Option<bool> {
    match field(j, key) {
        Some(v) => bool_in(v),
        None => None,
    }
}

/// The text under two names, one inside the other.
pub open spec fn inner_text(j: JsonModel, outer: Seq<char>, inner: Seq<char>) -> Option<Seq<char>> {
    match field(j, outer) {
        Some(v) => field_text(v, inner),
        None => None,
    }
}

impl Json {
    /// See [`field`].
    pub fn get(&self, key: &str) -> (r: Option<&Json>)
        ensures
            match r {
                Some(v) => field(self@, key@) == Some(v@),
                None => field(self@, key@) is None,
            },
    {
        match self {
            Json::Object(entries) => {
                let ghost all = entries@;
                let mut i: usize = entries.len();
                assert(all.take(i as int) =~= all);
                while i > 0
                    invariant
                        all == entries@,
                        self@ == JsonModel::Object(entries_of(all)),
                        i <= entries.len(),
                        entries_of(all).contains_key(key@) == entries_of(
                            all.take(i as int),
                        ).contains_key(key@),
                        entries_of(all).contains_key(key@) ==> entries_of(all)[key@] == entries_of(
                            all.take(i as int),
                        )[key@],
                    decreases i,
                {
                    assert(all.take(i as int).drop_last() =~= all.take(i - 1));
                    assert(all.take(i as int).last() == all[i - 1]);
                    if text::same(entries[i - 1].0.as_str(), key) {
                        return Some(&entries[i - 1].1);
                    }
                    i = i - 1;
                }
                None
            },
            _ => None,
        }
    }

    /// See [`text_in`].
    pub fn as_str(&self) -> (r: Option<&str>)
        ensures
            match r {
                Some(s) => text_in(self@) == Some(s@),
                None => text_in(self@) is None,
            },
    {
        match self {
            Json::Str(s) => Some(s.as_str()),
            _ => None,
        }
    }

    /// See [`int_in`].
    pub fn as_i64(&self) -> (r: Option<i64>)
        ensures
            r == int_in(self@),
    {
        match self {
            Json::Int(i) => Some(*i),
            Json::Uint(u) => {
                if *u <= i64::MAX as u64 {
                    Some(*u as i64)
                } else {
                    None
                }
            },
            Json::Float(n) => n.as_i64(),
            _ => None,
        }
    }

    /// See [`uint_in`].
    pub fn as_u64(&self) -> (r: Option<u64>)
        ensures
            r == uint_in(self@),
    {
        match self {
            Json::Int(i) => {
                if *i >= 0 {
                    Some(*i as u64)
                } else {
                    None
                }
            },
            Json::Uint(u) => Some(*u),
            Json::Float(n) => n.as_u64(),
            _ => None,
        }
    }

    /// See [`bool_in`].
    pub fn as_bool(&self) -> (r: Option<bool>)
        ensures
            r == bool_in(self@),
    {
        match self {
            Json::Bool(b) => Some(*b),
            _ => None,
        }
    }

    /// See [`items_in`].
    pub fn as_array(&self) -> (r: Option<&Vec<Json>>)
        ensures
            match r {
                Some(items) => items_in(self@) == Some(views(items@)),
                None => items_in(self@) is None,
            },
    {
        match self {
            Json::Array(items) => {
                proof {
                    models_are_views(items@);
                }
                Some(items)
            },
            _ => None,
        }
    }

    /// See [`field_text`].
    pub fn get_str(&self, key: &str) -> (r: Option<&str>)
        ensures
            match r {
                Some(s) => field_text(self@, key@) == Some(s@),
                None => field_text(self@, key@) is None,
            },
    {
        match self.get(key) {
            Some(v) => v.as_str(),
            None => None,
        }
    }

    /// See [`field_text`].
    pub fn get_string(&self, key: &str) -> (r: Option<String>)
        ensures
            opt_view(r) == field_text(self@, key@),
    {
        match self.get_str(key) {
            Some(s) => Some(s.to_owned()),
            None => None,
        }
    }

    /// See [`field_text_or`].
    pub fn get_string_or(&self, key: &str, other: &str) -> (r: String)
        ensures
            r@ == field_text_or(self@, key@, other@),
    {
        match self.get_str(key) {
            Some(s) => s.to_owned(),
            None => other.to_owned(),
        }
    }

    /// See [`field_int`].
    pub fn get_i64(&self, key: &str) -> (r: Option<i64>)
        ensures
            r == field_int(self@, key@),
    {
        match self.get(key) {
            Some(v) => v.as_i64(),
            None => None,
        }
    }

    /// See [`field_bool`].
    pub fn get_bool(&self, key: &str) -> (r: Option<bool>)
        ensures
            r == field_bool(self@, key@),
    {
        match self.get(key) {
            Some(v) => v.as_bool(),
            None => None,
        }
    }

    /// See [`inner_text`].
    pub fn get_inner_string(&self, outer: &str, inner: &str) -> (r: Option<String>)
        ensures
            opt_view(r) == inner_text(self@, outer@, inner@),
    {
        match self.get(outer) {
            Some(v) => v.get_string(inner),
            None => None,
        }
    }
}

/// A JSON text.
pub fn string(s: &str) -> (r: Json)
    ensures
        r@ == JsonModel::Str(s@),
{
    Json::Str(s.to_owned())
}

/// A copy of a JSON value.
pub fn copy(j: &Json) -> (r: Json)
    ensures
        r@ == j@,
    decreases j,
{
    match j {
        Json::Null => Json::Null,
        Json::Bool(b) => Json::Bool(*b),
        Json::Int(i) => Json::Int(*i),
        Json::Uint(u) => Json::Uint(*u),
        Json::Float(n) => Json::Float(n.clone()),
        Json::Str(s) => Json::Str(s.clone()),
        Json::Array(items) => {
            let mut r: Vec<Json> = Vec::new();
            let mut i: usize = 0;
            while i < items.len()
                invariant
                    *j == Json::Array(*items),
                    i <= items.len(),
                    models_of(r@) == models_of(items@.take(i as int)),
                decreases items.len() - i,
            {
                proof {
                    assert(decreases_to!(j => j->Array_0));
                    assert(decreases_to!(items@ => items@[i as int]));
                }
                let item = copy(&items[i]);
                assert(items@.take(i + 1).drop_last() =~= items@.take(i as int));
                assert(r@.push(item).drop_last() =~= r@);
                r.push(item);
                i = i + 1;
            }
            assert(items@.take(i as int) =~= items@);
            Json::Array(r)
        },
        Json::Object(entries) => {
            let mut r: Vec<(String, Json)> = Vec::new();
            let mut i: usize = 0;
            while i < entries.len()
                invariant
                    *j == Json::Object(*entries),
                    i <= entries.len(),
                    entries_of(r@) == entries_of(entries@.take(i as int)),
                decreases entries.len() - i,
            {
                proof {
                    assert(decreases_to!(j => j->Object_0));
                    assert(decreases_to!(entries@ => entries@[i as int]));
                    assert(decreases_to!(entries@[i as int] => entries@[i as int].1));
                }
                let value = copy(&entries[i].1);
                let entry = (entries[i].0.clone(), value);
                assert(entries@.take(i + 1).drop_last() =~= entries@.take(i as int));
                assert(r@.push(entry).drop_last() =~= r@);
                r.push(entry);
                i = i + 1;
            }
            assert(entries@.take(i as int) =~= entries@);
            Json::Object(r)
        },
    }
}

/// A field is what stands under its name in an object, and nothing where there is no such name or
/// no object; it is read as a text, an integer or a truth value exactly where it is one.
pub proof fn fields_are_found_by_name(
    m: Map<Seq<char>, JsonModel>,
    key: Seq<char>,
    s: Seq<char>,
    n: i64,
    b: bool,
)
    ensures
        field(JsonModel::Object(m), key) == (if m.dom().contains(key) {
            Some(m[key])
        } else {
            None
        }),
        !m.dom().contains(key) ==> field_text(JsonModel::Object(m), key) is None && field_text_or(
            JsonModel::Object(m),
            key,
            s,
        ) == s && field_int(JsonModel::Object(m), key) is None && field_bool(
            JsonModel::Object(m),
            key,
        ) is None,
        field_text(JsonModel::Object(m.insert(key, JsonModel::Str(s))), key) == Some(s),
        field_text_or(JsonModel::Object(m.insert(key, JsonModel::Str(s))), key, seq!['x']) == s,
        field_int(JsonModel::Object(m.insert(key, JsonModel::Str(s))), key) is None,
        field_int(JsonModel::Object(m.insert(key, JsonModel::Int(n as int))), key) == Some(n),
        field_text(JsonModel::Object(m.insert(key, JsonModel::Int(n as int))), key) is None,
        field_bool(JsonModel::Object(m.insert(key, JsonModel::Bool(b))), key) == Some(b),
        field(JsonModel::Null, key) is None,
        field(JsonModel::Str(s), key) is None,
        field(JsonModel::Array(seq![JsonModel::Object(m)]), key) is None,
        items_in(JsonModel::Array(seq![JsonModel::Object(m)])) == Some(seq![JsonModel::Object(m)]),
        items_in(JsonModel::Object(m)) is None,
        text_in(JsonModel::Str(s)) == Some(s),
        text_in(JsonModel::Int(n as int)) is None,
{
}

/// A text under two names, one inside the other, is found under them.
pub proof fn inner_texts_are_found(j: JsonModel, outer: Seq<char>, inner: Seq<char>, s: Seq<char>)
    ensures
        (field(j, outer) matches Some(v) && field(v, inner) == Some(JsonModel::Str(s)))
            <==> inner_text(j, outer, inner) == Some(s),
{
}

/// A number is read as one of its own size exactly where it fits, and what is no number is not
/// read as one.
pub proof fn numbers_are_read_where_they_fit(n: int, s: Seq<char>, b: bool)
    ensures
        i64::MIN <= n <= i64::MAX ==> (int_in(JsonModel::Int(n)) matches Some(i) && i == n),
        !(i64::MIN <= n <= i64::MAX) ==> int_in(JsonModel::Int(n)) is None,
        0 <= n <= u64::MAX ==> (uint_in(JsonModel::Int(n)) matches Some(i) && i == n),
        !(0 <= n <= u64::MAX) ==> uint_in(JsonModel::Int(n)) is None,
        bool_in(JsonModel::Bool(b)) == Some(b),
        int_in(JsonModel::Str(s)) is None && uint_in(JsonModel::Str(s)) is None && bool_in(
            JsonModel::Str(s),
        ) is None,
        bool_in(JsonModel::Int(n)) is None,
        int_in(JsonModel::Bool(b)) is None && uint_in(JsonModel::Bool(b)) is None,
{
}

} // verus!
