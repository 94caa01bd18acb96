//! JSON on the wire: one value to a line, read and written by `serde_json`.
use vstd::prelude::*;
use vstd::string::*;

use crate::json::{
    entries_of, models_of, number_model, signed_number, unsigned_number, Json, JsonModel,
};

verus! {

/// `serde_json::Value`, which is only taken apart and put together here.
#[verifier::external_type_specification]
#[verifier::external_body]
pub struct ExValue(serde_json::Value);

/// What a `serde_json::Value` holds.
pub uninterp spec fn value_tree(v: serde_json::Value) -> JsonModel;

/// What `serde_json::from_str` reads from a text, or what its error says.
pub uninterp spec fn read_json(text: Seq<char>) -> Result<JsonModel, Seq<char>>;

/// What `serde_json` writes for a value.
pub uninterp spec fn json_text(tree: JsonModel) -> Seq<char>;

/// The outermost layer of a `serde_json::Value`.
pub enum Shape {
    Null,
    Bool(bool),
    Number(serde_json::Number),
    Str(String),
    Array(Vec<serde_json::Value>),
    Object(Vec<(String, serde_json::Value)>),
}

/// The values of items.
pub open spec fn trees_of(items: Seq<serde_json::Value>) -> Seq<JsonModel> {
    items.map_values(|v: serde_json::Value| value_tree(v))
}

/// The values of entries; of two under one name the last one counts.
pub open spec fn tree_entries(entries: Seq<(String, serde_json::Value)>) -> Map<Seq<char>, JsonModel>
    decreases entries.len(),
{
    if entries.len() == 0 {
        Map::empty()
    } else {
        tree_entries(entries.drop_last()).insert(entries.last().0@, value_tree(entries.last().1))
    }
}

/// Whether no two entries have one name.
pub open spec fn names_differ(entries: Seq<(String, serde_json::Value)>) -> bool {
    forall|i: int, j: int|
        0 <= i < j < entries.len() ==> (#[trigger] entries[i]).0@ != (#[trigger] entries[j]).0@
}

/// The value of a layer.
pub open spec fn shape_tree(s: Shape) -> JsonModel {
    match s {
        Shape::Null => JsonModel::Null,
        Shape::Bool(b) => JsonModel::Bool(b),
        Shape::Number(n) => number_model(n),
        Shape::Str(t) => JsonModel::Str(t@),
        Shape::Array(items) => JsonModel::Array(trees_of(items@)),
        Shape::Object(entries) => JsonModel::Object(tree_entries(entries@)),
    }
}

/// `serde_json::from_str`, to any value. The value, or the text of the error, is a function of
/// the text.
#[verifier::external_body]
fn value_from_str(text: &str) -> (r: Result<serde_json::Value, String>)
    ensures
        match r {
            Ok(v) => read_json(text@) == Ok::<JsonModel, Seq<char>>(value_tree(v)),
            Err(e) => read_json(text@) == Err::<JsonModel, Seq<char>>(e@),
        },
{
    serde_json::from_str::<serde_json::Value>(text).map_err(|e| e.to_string())
}

/// `<serde_json::Value as Display>::fmt`, which writes compact JSON. The text is a function of
/// what the value holds.
#[verifier::external_body]
fn value_to_string(v: &serde_json::Value) -> (r: String)
    ensures
        r@ == json_text(value_tree(*v)),
{
    v.to_string()
}

/// The variants of `serde_json::Value`: the outermost layer of a value holds what the value
/// holds. No two entries of an object have one name.
#[verifier::external_body]
fn take_apart(v: serde_json::Value) -> (r: Shape)
    ensures
        shape_tree(r) == value_tree(v),
        r matches Shape::Object(entries) ==> names_differ(entries@),
{
    match v {
        serde_json::Value::Null => Shape::Null,
        serde_json::Value::Bool(b) => Shape::Bool(b),
        serde_json::Value::Number(n) => Shape::Number(n),
        serde_json::Value::String(s) => Shape::Str(s),
        serde_json::Value::Array(items) => Shape::Array(items),
        serde_json::Value::Object(entries) => Shape::Object(entries.into_iter().collect()),
    }
}

/// The variants of `serde_json::Value`: a value made of a layer holds what the layer holds.
/// Entries are put in one after the other.
#[verifier::external_body]
fn put_together(s: Shape) -> (r: serde_json::Value)
    ensures
        value_tree(r) == shape_tree(s),
{
    match s {
        Shape::Null => serde_json::Value::Null,
        Shape::Bool(b) => serde_json::Value::Bool(b),
        Shape::Number(n) => serde_json::Value::Number(n),
        Shape::Str(s) => serde_json::Value::String(s),
        Shape::Array(items) => serde_json::Value::Array(items),
        Shape::Object(entries) => serde_json::Value::Object(entries.into_iter().collect()),
    }
}

proof fn trees_push(items: Seq<serde_json::Value>, v: serde_json::Value)
    ensures
        trees_of(items.push(v)) == trees_of(items).push(value_tree(v)),
{
    assert(trees_of(items.push(v)) =~= trees_of(items).push(value_tree(v)));
}

/// Where no two entries have one name, each of them is among the values of the entries, of
/// which there are finitely many.
proof fn tree_entries_hold(entries: Seq<(String, serde_json::Value)>)
    requires
        names_differ(entries),
    ensures
        tree_entries(entries).dom().finite(),
        forall|i: int|
            0 <= i < entries.len() ==> {
                &&& tree_entries(entries).contains_key((#[trigger] entries[i]).0@)
                &&& tree_entries(entries)[entries[i].0@] == value_tree(entries[i].1)
            },
    decreases entries.len(),
{
    if entries.len() > 0 {
        let head = entries.drop_last();
        assert forall|i: int, j: int| 0 <= i < j < head.len() implies (#[trigger] head[i]).0@
            != (#[trigger] head[j]).0@ by {
            assert(entries[i].0@ != entries[j].0@);
        }
        tree_entries_hold(head);
        assert forall|i: int| 0 <= i < entries.len() implies {
            &&& tree_entries(entries).contains_key((#[trigger] entries[i]).0@)
            &&& tree_entries(entries)[entries[i].0@] == value_tree(entries[i].1)
        } by {
            if i < head.len() {
                assert(head[i] == entries[i]);
                assert(entries[i].0@ != entries[entries.len() - 1].0@);
            }
        }
    }
}

/// The plain value that a `serde_json::Value` holds.
fn from_value(v: serde_json::Value) -> (r: Json)
    ensures
        r@ == value_tree(v),
    decreases value_tree(v),
{
    let ghost tree = value_tree(v);
    match take_apart(v) {
        Shape::Null => Json::Null,
        Shape::Bool(b) => Json::Bool(b),
        Shape::Number(n) => match n.as_i64() {
            Some(i) => Json::Int(i),
            None => match n.as_u64() {
                Some(u) => Json::Uint(u),
                None => Json::Float(n),
            },
        },
        Shape::Str(s) => Json::Str(s),
        Shape::Array(items) => {
            let ghost all = items@;
            let mut r: Vec<Json> = Vec::new();
            for item in it: items
                invariant
                    it.seq() == all,
                    tree == JsonModel::Array(trees_of(all)),
                    tree == value_tree(v),
                    models_of(r@) == trees_of(all.take(it.index())),
            {
                proof {
                    let i = it.index();
                    assert(trees_of(all)[i] == value_tree(item));
                    assert(decreases_to!(tree => tree->Array_0));
                    assert(decreases_to!(tree->Array_0 => tree->Array_0[i]));
                    assert(all.take(i + 1) =~= all.take(i).push(item));
                    trees_push(all.take(i), item);
                }
                let j = from_value(item);
                assert(r@.push(j).drop_last() =~= r@);
                r.push(j);
            }
            assert(all.take(all.len() as int) =~= all);
            Json::Array(r)
        },
        Shape::Object(entries) => {
            let ghost all = entries@;
            proof {
                tree_entries_hold(all);
            }
            let mut r: Vec<(String, Json)> = Vec::new();
            for entry in it: entries
                invariant
                    it.seq() == all,
                    names_differ(all),
                    tree == JsonModel::Object(tree_entries(all)),
                    tree == value_tree(v),
                    entries_of(r@) == tree_entries(all.take(it.index())),
            {
                proof {
                    let i = it.index();
                    tree_entries_hold(all);
                    assert(all[i] == entry);
                    let m = tree->Object_0;
                    assert(m.contains_key(entry.0@));
                    assert(m[entry.0@] == value_tree(entry.1));
                    assert(decreases_to!(tree => tree->Object_0));
                    assert(decreases_to!(m => m[entry.0@]));
                    assert(all.take(i + 1).drop_last() =~= all.take(i));
                }
                let (name, value) = entry;
                let j = from_value(value);
                assert(r@.push((name, j)).drop_last() =~= r@);
                r.push((name, j));
            }
            assert(all.take(all.len() as int) =~= all);
            Json::Object(r)
        },
    }
}

/// Reads one JSON value from a text.
pub fn read(text: &str) -> (r: Result<Json, String>)
    ensures
        match r {
            Ok(j) => read_json(text@) == Ok::<JsonModel, Seq<char>>(j@),
            Err(e) => read_json(text@) == Err::<JsonModel, Seq<char>>(e@),
        },
{
    match value_from_str(text) {
        Ok(v) => Ok(from_value(v)),
        Err(e) => Err(e),
    }
}

/// The `serde_json::Value` that holds a plain value.
fn to_value(j: &Json) -> (r: serde_json::Value)
    ensures
        value_tree(r) == j@,
    decreases j,
{
    match j {
        Json::Null => put_together(Shape::Null),
        Json::Bool(b) => put_together(Shape::Bool(*b)),
        Json::Int(i) => put_together(Shape::Number(signed_number(*i))),
        Json::Uint(u) => put_together(Shape::Number(unsigned_number(*u))),
        Json::Float(n) => put_together(Shape::Number(n.clone())),
        Json::Str(s) => put_together(Shape::Str(s.clone())),
        Json::Array(items) => {
            let mut r: Vec<serde_json::Value> = Vec::new();
            let mut i: usize = 0;
            assert(trees_of(r@) =~= models_of(items@.take(0)));
            while i < items.len()
                invariant
                    *j == Json::Array(*items),
                    i <= items.len(),
                    trees_of(r@) == models_of(items@.take(i as int)),
                decreases items.len() - i,
            {
                proof {
                    assert(decreases_to!(j => j->Array_0));
                    assert(decreases_to!(items@ => items@[i as int]));
                    assert(items@.take(i + 1).drop_last() =~= items@.take(i as int));
                }
                let v = to_value(&items[i]);
                proof {
                    trees_push(r@, v);
                }
                r.push(v);
                i = i + 1;
            }
            assert(items@.take(i as int) =~= items@);
            put_together(Shape::Array(r))
        },
        Json::Object(entries) => {
            let mut r: Vec<(String, serde_json::Value)> = Vec::new();
            let mut i: usize = 0;
            while i < entries.len()
                invariant
                    *j == Json::Object(*entries),
                    i <= entries.len(),
                    tree_entries(r@) == entries_of(entries@.take(i as int)),
                decreases entries.len() - i,
            {
                proof {
                    assert(decreases_to!(j => j->Object_0));
                    assert(decreases_to!(entries@ => entries@[i as int]));
                    assert(decreases_to!(entries@[i as int] => entries@[i as int].1));
                    assert(entries@.take(i + 1).drop_last() =~= entries@.take(i as int));
                }
                let entry = (entries[i].0.clone(), to_value(&entries[i].1));
                assert(r@.push(entry).drop_last() =~= r@);
                r.push(entry);
                i = i + 1;
            }
            assert(entries@.take(i as int) =~= entries@);
            put_together(Shape::Object(r))
        },
    }
}

/// Writes a value.
pub fn write(j: &Json) -> (r: String)
    ensures
        r@ == json_text(j@),
{
    value_to_string(&to_value(j))
}

/// Writes a value as a line.
pub fn write_line(j: &Json) -> (r: String)
    ensures
        r@ == json_text(j@) + "\n"@,
{
    let mut line = write(j);
    line.append("\n");
    line
}

/// An object while it is put together.
pub struct ObjectBuilder {
    entries: Vec<(String, Json)>,
}

impl View for ObjectBuilder {
    type V = Map<Seq<char>, JsonModel>;

    closed spec fn view(&self) -> Map<Seq<char>, JsonModel> {
        entries_of(self.entries@)
    }
}

impl ObjectBuilder {
    pub fn new() -> (r: Self)
        ensures
            r@ == Map::<Seq<char>, JsonModel>::empty(),
    {
        ObjectBuilder { entries: Vec::new() }
    }

    /// Puts a value under a name.
    pub fn put(self, key: &str, value: Json) -> (r: Self)
        ensures
            r@ == self@.insert(key@, value@),
    {
        let mut entries = self.entries;
        let entry = (key.to_owned(), value);
        assert(entries@.push(entry).drop_last() =~= entries@);
        entries.push(entry);
        ObjectBuilder { entries }
    }

    /// The object.
    pub fn done(self) -> (r: Json)
        ensures
            r@ == JsonModel::Object(self@),
    {
        Json::Object(self.entries)
    }
}

/// An array of one item.
pub fn array1(item: Json) -> (r: Json)
    ensures
        r@ == JsonModel::Array(seq![item@]),
{
    let mut items: Vec<Json> = Vec::new();
    items.push(item);
    proof {
        assert(items@.drop_last() =~= Seq::empty());
        assert(models_of(items@) =~= seq![item@]) by {
            reveal_with_fuel(models_of, 2);
        }
    }
    Json::Array(items)
}

} // verus!
