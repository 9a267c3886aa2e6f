//! A TOML document as plain values: the model that manifests are read from.
//!
//! The text is parsed by the `toml` crate and rebuilt as a [`TomlValue`],
//! whose logical content is [`TomlModel`].
use vstd::prelude::*;
use crate::text::same_text;

verus! {

broadcast use vstd::std_specs::vec::group_vec_axioms;

#[verifier::external_type_specification]
#[verifier::external_body]
pub struct ExTomlValue(toml::Value);

/// A TOML value. Floats are kept as the bit pattern of their `f64`, and
/// datetimes as the text that `toml` writes for them.
#[derive(Debug)]
pub enum TomlValue {
    Str(String),
    Int(i64),
    Float(u64),
    Bool(bool),
    Datetime(String),
    Array(Vec<TomlValue>),
    Table(Vec<(String, TomlValue)>),
}

/// The logical content of a [`TomlValue`].
pub enum TomlModel {
    Str(Seq<char>),
    Int(i64),
    Float(u64),
    Bool(bool),
    Datetime(Seq<char>),
    Array(Seq<TomlModel>),
    Table(Seq<(Seq<char>, TomlModel)>),
}

impl TomlValue {
    pub open spec fn model(self) -> TomlModel
        decreases self,
    {
        match self {
            TomlValue::Str(s) => TomlModel::Str(s@),
            TomlValue::Int(i) => TomlModel::Int(i),
            TomlValue::Float(f) => TomlModel::Float(f),
            TomlValue::Bool(b) => TomlModel::Bool(b),
            TomlValue::Datetime(d) => TomlModel::Datetime(d@),
            TomlValue::Array(items) => TomlModel::Array(
                Seq::new(
                    items@.len(),
                    |i: int|
                        if 0 <= i < items@.len() {
                            items@[i].model()
                        } else {
                            TomlModel::Bool(false)
                        },
                ),
            ),
            TomlValue::Table(t) => TomlModel::Table(
                Seq::new(
                    t@.len(),
                    |i: int|
                        if 0 <= i < t@.len() {
                            (t@[i].0@, t@[i].1.model())
                        } else {
                            (Seq::empty(), TomlModel::Bool(false))
                        },
                ),
            ),
        }
    }

    /// An independent copy of the value.
    pub fn deep_copy(&self) -> (r: TomlValue)
        ensures
            r.model() == self.model(),
        decreases self,
    {
        match self {
            TomlValue::Str(s) => TomlValue::Str(s.clone()),
            TomlValue::Int(i) => TomlValue::Int(*i),
            TomlValue::Float(f) => TomlValue::Float(*f),
            TomlValue::Bool(b) => TomlValue::Bool(*b),
            TomlValue::Datetime(d) => TomlValue::Datetime(d.clone()),
            TomlValue::Array(items) => {
                let mut out: Vec<TomlValue> = Vec::new();
                let mut i: usize = 0;
                while i < items.len()
                    invariant
                        i <= items.len(),
                        out@.len() == i,
                        *self == TomlValue::Array(*items),
                        forall|j: int| 0 <= j < i ==> #[trigger] out@[j].model() == items@[j].model(),
                    decreases items.len() - i,
                {
                    assert(decreases_to!(self => items@[i as int])) by {
                        assert(decreases_to!(*self => self->Array_0));
                        assert(decreases_to!(items => items@[i as int]));
                    }
                    out.push(items[i].deep_copy());
                    i = i + 1;
                }
                let r = TomlValue::Array(out);
                assert forall|j: int| 0 <= j < out@.len() implies r.model()->Array_0[j]
                    == self.model()->Array_0[j] by {
                    assert(r.model()->Array_0[j] == out@[j].model());
                    assert(self.model()->Array_0[j] == items@[j].model());
                }
                assert(r.model()->Array_0 =~= self.model()->Array_0);
                r
            },
            TomlValue::Table(t) => {
                let mut out: Vec<(String, TomlValue)> = Vec::new();
                let mut i: usize = 0;
                while i < t.len()
                    invariant
                        i <= t.len(),
                        out@.len() == i,
                        *self == TomlValue::Table(*t),
                        forall|j: int|
                            0 <= j < i ==> #[trigger] out@[j].1.model() == t@[j].1.model()
                                && out@[j].0@ == t@[j].0@,
                    decreases t.len() - i,
                {
                    assert(decreases_to!(self => t@[i as int].1)) by {
                        assert(decreases_to!(*self => self->Table_0));
                        assert(decreases_to!(t => t@[i as int]));
                    }
                    let k = t[i].0.clone();
                    let v = t[i].1.deep_copy();
                    out.push((k, v));
                    i = i + 1;
                }
                let r = TomlValue::Table(out);
                assert forall|j: int| 0 <= j < out@.len() implies r.model()->Table_0[j]
                    == self.model()->Table_0[j] by {
                    assert(r.model()->Table_0[j] == (out@[j].0@, out@[j].1.model()));
                    assert(self.model()->Table_0[j] == (t@[j].0@, t@[j].1.model()));
                }
                assert(r.model()->Table_0 =~= self.model()->Table_0);
                r
            },
        }
    }
}

/// The first entry of `t` under `key` (`toml::Table::get`; a TOML table
/// holds each key once).
pub open spec fn entry_of(t: Seq<(Seq<char>, TomlModel)>, key: Seq<char>) -> Option<TomlModel>
    decreases t.len(),
{
    if t.len() == 0 {
        None
    } else if t[0].0 == key {
        Some(t[0].1)
    } else {
        entry_of(t.drop_first(), key)
    }
}

/// `toml::Value::get(key)`: the entry under `key` when `v` is a table.
pub open spec fn get_spec(v: TomlModel, key: Seq<char>) -> Option<TomlModel> {
    match v {
        TomlModel::Table(t) => entry_of(t, key),
        _ => None,
    }
}

/// `as_str` on an optional value.
pub open spec fn str_spec(v: Option<TomlModel>) -> Option<Seq<char>> {
    match v {
        Some(TomlModel::Str(s)) => Some(s),
        _ => None,
    }
}

/// The entries of a table, as the model sees them.
pub open spec fn entries_model(t: Seq<(String, TomlValue)>) -> Seq<(Seq<char>, TomlModel)> {
    Seq::new(t.len(), |i: int| (t[i].0@, t[i].1.model()))
}

pub proof fn lemma_table_model(t: Vec<(String, TomlValue)>)
    ensures
        TomlValue::Table(t).model() == TomlModel::Table(entries_model(t@)),
{
    assert(TomlValue::Table(t).model()->Table_0 =~= entries_model(t@));
}

pub proof fn lemma_array_model(items: Vec<TomlValue>)
    ensures
        TomlValue::Array(items).model() == TomlModel::Array(items@.map_values(|v: TomlValue| v.model())),
{
    assert(TomlValue::Array(items).model()->Array_0 =~= items@.map_values(|v: TomlValue| v.model()));
}

/// The value stored under `key` in the table entries `t`, if any.
pub fn lookup<'a>(t: &'a Vec<(String, TomlValue)>, key: &str) -> (r: Option<&'a TomlValue>)
    ensures
        match r {
            Some(v) => entry_of(entries_model(t@), key@) == Some(v.model()),
            None => entry_of(entries_model(t@), key@) is None,
        },
{
    let mut i: usize = 0;
    assert(entries_model(t@).skip(0) =~= entries_model(t@));
    while i < t.len()
        invariant
            i <= t.len(),
            entry_of(entries_model(t@), key@) == entry_of(entries_model(t@).skip(i as int), key@),
        decreases t.len() - i,
    {
        assert(entries_model(t@).skip(i as int).drop_first() =~= entries_model(t@).skip(i + 1));
        if same_text(t[i].0.as_str(), key) {
            return Some(&t[i].1);
        }
        i = i + 1;
    }
    None
}

/// The text of a value that is a string.
pub fn as_text(v: &TomlValue) -> (r: Option<String>)
    ensures
        match r {
            Some(s) => v.model() == TomlModel::Str(s@),
            None => !(v.model() is Str),
        },
{
    match v {
        TomlValue::Str(s) => Some(s.clone()),
        _ => None,
    }
}

/// What `toml::from_str::<toml::Value>` makes of `text`: the document it
/// reads, as a [`TomlModel`], or the message of its error.
pub uninterp spec fn toml_parsed(text: Seq<char>) -> Result<TomlModel, Seq<char>>;

/// The document `toml` parsed, rebuilt as a [`TomlValue`] one value for one:
/// the same variant with the same contents, floats as their bit pattern
/// (`f64::to_bits`) and datetimes as their text (`Display`). Nothing is
/// claimed here; [`toml_from_str`] states what comes out.
#[verifier::external_body]
fn toml_tree(v: toml::Value) -> (r: TomlValue) {
    match v {
        toml::Value::String(s) => TomlValue::Str(s),
        toml::Value::Integer(i) => TomlValue::Int(i),
        toml::Value::Float(f) => TomlValue::Float(f.to_bits()),
        toml::Value::Boolean(b) => TomlValue::Bool(b),
        toml::Value::Datetime(d) => TomlValue::Datetime(d.to_string()),
        toml::Value::Array(a) => TomlValue::Array(a.into_iter().map(toml_tree).collect()),
        toml::Value::Table(t) => TomlValue::Table(t.into_iter().map(|(k, x)| (k, toml_tree(x))).collect()),
    }
}

/// `toml::from_str::<toml::Value>`, its document rebuilt by [`toml_tree`].
/// Claimed: the result is [`toml_parsed`] of the text: the document, or an
/// error carrying `toml`'s message.
#[verifier::external_body]
fn toml_from_str(text: &str) -> (r: Result<TomlValue, String>)
    ensures
        match toml_parsed(text@) {
            Ok(d) => r is Ok && r->Ok_0.model() == d,
            Err(e) => r is Err && r->Err_0@ == e,
        },
{
    toml::from_str::<toml::Value>(text).map(toml_tree).map_err(|e| e.to_string())
}

/// Parses a TOML document: the document the text holds, or `toml`'s message
/// for a text it does not read.
pub fn parse_toml(text: &str) -> (r: Result<TomlValue, String>)
    ensures
        match toml_parsed(text@) {
            Ok(d) => r is Ok && r->Ok_0.model() == d,
            Err(e) => r is Err && r->Err_0@ == e,
        },
{
    toml_from_str(text)
}

} // verus!
