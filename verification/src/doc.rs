//! Documents: the trees of values that JSON and TOML texts stand for.
//!
//! The manifests and lock files of the package managers are read as documents.
//! A document keeps what the readers of this library look at: texts, flags,
//! lists and tables. Of numbers and dates it keeps only that they are there.
use vstd::prelude::*;

use crate::chars;

verus! {

/// A document or a part of one.
#[derive(Debug)]
pub enum Doc {
    Null,
    Bool(bool),
    /// A number or a date.
    Scalar,
    Text(String),
    List(Vec<Doc>),
    /// Keys with their values, in the order of the keys.
    Table(Vec<(String, Doc)>),
}

/// What a document holds.
pub enum DocModel {
    Null,
    Bool(bool),
    Scalar,
    Text(Seq<char>),
    List(Seq<DocModel>),
    Table(Seq<(Seq<char>, DocModel)>),
}

impl View for Doc {
    type V = DocModel;

    open spec fn view(&self) -> DocModel
        decreases self,
    {
        match *self {
            Doc::Null => DocModel::Null,
            Doc::Bool(b) => DocModel::Bool(b),
            Doc::Scalar => DocModel::Scalar,
            Doc::Text(s) => DocModel::Text(s@),
            Doc::List(v) => DocModel::List(
                Seq::new(
                    v@.len(),
                    |i: int|
                        if 0 <= i < v@.len() {
                            v@[i].view()
                        } else {
                            DocModel::Null
                        },
                ),
            ),
            Doc::Table(v) => DocModel::Table(
                Seq::new(
                    v@.len(),
                    |i: int|
                        (
                            v@[i].0@,
                            if 0 <= i < v@.len() {
                                v@[i].1.view()
                            } else {
                                DocModel::Null
                            },
                        ),
                ),
            ),
        }
    }
}

/// The value that a list of keyed values has for a key.
pub open spec fn lookup(entries: Seq<(Seq<char>, DocModel)>, key: Seq<char>) -> Option<DocModel>
    decreases entries.len(),
{
    if entries.len() == 0 {
        None
    } else if entries[0].0 == key {
        Some(entries[0].1)
    } else {
        lookup(entries.skip(1), key)
    }
}

/// The value under a key, where the document is a table that has it.
pub open spec fn get(d: DocModel, key: Seq<char>) -> Option<DocModel> {
    match d {
        DocModel::Table(entries) => lookup(entries, key),
        _ => None,
    }
}

/// The value under a key of a value that may be missing.
pub open spec fn get_opt(d: Option<DocModel>, key: Seq<char>) -> Option<DocModel> {
    match d {
        Some(d) => get(d, key),
        None => None,
    }
}

/// The text that a value is, if it is one.
pub open spec fn as_text(d: Option<DocModel>) -> Option<Seq<char>> {
    match d {
        Some(DocModel::Text(s)) => Some(s),
        _ => None,
    }
}

/// The entries of a value that is a table.
pub open spec fn as_table(d: Option<DocModel>) -> Option<Seq<(Seq<char>, DocModel)>> {
    match d {
        Some(DocModel::Table(entries)) => Some(entries),
        _ => None,
    }
}

/// The items of a value that is a list.
pub open spec fn as_list(d: Option<DocModel>) -> Option<Seq<DocModel>> {
    match d {
        Some(DocModel::List(items)) => Some(items),
        _ => None,
    }
}

/// Is the value the flag `true`?
pub open spec fn is_true(d: Option<DocModel>) -> bool {
    d == Some(DocModel::Bool(true))
}

/// The text under a key.
pub open spec fn text_at(d: DocModel, key: Seq<char>) -> Option<Seq<char>> {
    as_text(get(d, key))
}

/// The view of a document that may be missing.
pub open spec fn opt_doc(d: Option<&Doc>) -> Option<DocModel> {
    match d {
        Some(d) => Some(d@),
        None => None,
    }
}

/// What a list of keyed documents holds.
pub open spec fn entry_models(v: Seq<(String, Doc)>) -> Seq<(Seq<char>, DocModel)> {
    Seq::new(v.len(), |i: int| (v[i].0@, v[i].1@))
}

/// What a list of documents holds.
pub open spec fn item_models(v: Seq<Doc>) -> Seq<DocModel> {
    Seq::new(v.len(), |i: int| v[i]@)
}

/// A table holds what its entries hold.
proof fn table_view(d: Doc, v: Vec<(String, Doc)>)
    requires
        d == Doc::Table(v),
    ensures
        d@ == DocModel::Table(entry_models(v@)),
{
    assert(d@->Table_0 =~= entry_models(v@));
}

impl Doc {
    /// The value under a key, where this is a table that has it.
    pub fn get(&self, key: &str) -> (r: Option<&Doc>)
        ensures
            opt_doc(r) == self::get(self@, key@),
    {
        match self {
            Doc::Table(entries) => {
                let wanted = chars::of(key);
                let ghost all = entry_models(entries@);
                proof {
                    table_view(*self, *entries);
                }
                assert(all.skip(0) =~= all);
                let mut i: usize = 0;
                while i < entries.len()
                    invariant
                        i <= entries.len(),
                        all == entry_models(entries@),
                        self@ == DocModel::Table(all),
                        wanted@ == key@,
                        lookup(all, key@) == lookup(all.skip(i as int), key@),
                    decreases entries.len() - i,
                {
                    let name = chars::of(entries[i].0.as_str());
                    assert(all.skip(i as int)[0] == all[i as int]);
                    if chars::same(&name, &wanted) {
                        return Some(&entries[i].1);
                    }
                    assert(all.skip(i as int).skip(1) =~= all.skip(i + 1));
                    i = i + 1;
                }
                None
            },
            _ => None,
        }
    }

    /// The text that this is.
    pub fn as_str(&self) -> (r: Option<&String>)
        ensures
            match r {
                Some(s) => self@ == DocModel::Text(s@),
                None => !(self@ is Text),
            },
    {
        match self {
            Doc::Text(s) => Some(s),
            _ => None,
        }
    }

    /// The entries of this table.
    pub fn as_table(&self) -> (r: Option<&Vec<(String, Doc)>>)
        ensures
            match r {
                Some(v) => self@ == DocModel::Table(entry_models(v@)),
                None => !(self@ is Table),
            },
    {
        match self {
            Doc::Table(v) => {
                proof {
                    table_view(*self, *v);
                }
                Some(v)
            },
            _ => None,
        }
    }

    /// The items of this list.
    pub fn as_list(&self) -> (r: Option<&Vec<Doc>>)
        ensures
            match r {
                Some(v) => self@ == DocModel::List(item_models(v@)),
                None => !(self@ is List),
            },
    {
        match self {
            Doc::List(v) => {
                assert(self@->List_0 =~= item_models(v@));
                Some(v)
            },
            _ => None,
        }
    }
}

/// Walks down one key from a value that may be missing.
pub fn get_in<'a>(d: Option<&'a Doc>, key: &str) -> (r: Option<&'a Doc>)
    ensures
        opt_doc(r) == get_opt(opt_doc(d), key@),
{
    match d {
        Some(d) => d.get(key),
        None => None,
    }
}

/// The text of a value that may be missing.
pub fn text_of(d: Option<&Doc>) -> (r: Option<&String>)
    ensures
        match r {
            Some(s) => as_text(opt_doc(d)) == Some(s@),
            None => as_text(opt_doc(d)) is None,
        },
{
    match d {
        Some(d) => d.as_str(),
        None => None,
    }
}

/// The entries of a value that may be missing.
pub fn table_of(d: Option<&Doc>) -> (r: Option<&Vec<(String, Doc)>>)
    ensures
        match r {
            Some(v) => as_table(opt_doc(d)) == Some(entry_models(v@)),
            None => as_table(opt_doc(d)) is None,
        },
{
    match d {
        Some(d) => d.as_table(),
        None => None,
    }
}

/// The items of a value that may be missing.
pub fn list_of(d: Option<&Doc>) -> (r: Option<&Vec<Doc>>)
    ensures
        match r {
            Some(v) => as_list(opt_doc(d)) == Some(item_models(v@)),
            None => as_list(opt_doc(d)) is None,
        },
{
    match d {
        Some(d) => d.as_list(),
        None => None,
    }
}

/// Is a value that may be missing the flag `true`?
pub fn flag_of(d: Option<&Doc>) -> (r: bool)
    ensures
        r == is_true(opt_doc(d)),
{
    match d {
        Some(Doc::Bool(b)) => *b,
        _ => false,
    }
}

// ── JSON ────────────────────────────────────────────────────────────────────
/// A JSON value of `serde_json`.
#[verifier::external_type_specification]
#[verifier::external_body]
pub struct ExJsonValue(serde_json::Value);

/// An error of `serde_json`.
#[verifier::external_type_specification]
#[verifier::external_body]
pub struct ExJsonError(serde_json::Error);

/// What a JSON value holds.
pub uninterp spec fn json_tree(v: serde_json::Value) -> DocModel;

/// The document that a JSON text stands for, if it is one.
pub uninterp spec fn json_document(text: Seq<char>) -> Option<DocModel>;

/// `serde_json::from_str` for a `Value`: which texts are JSON, and what each of
/// them holds, depends on the text alone.
#[verifier::external_body]
fn json_from_str(text: &str) -> (r: Result<serde_json::Value, serde_json::Error>)
    ensures
        match r {
            Ok(v) => json_document(text@) == Some(json_tree(v)),
            Err(_) => json_document(text@) is None,
        },
{
    serde_json::from_str::<serde_json::Value>(text)
}

/// Takes a `serde_json::Value` apart: the document holds what the value holds,
/// each variant moved to its own, the entries of an object in the order in which
/// its map is walked, which is that of the keys.
#[verifier::external_body]
fn json_to_doc(v: serde_json::Value) -> (r: Doc)
    ensures
        r@ == json_tree(v),
{
    match v {
        serde_json::Value::Null => Doc::Null,
        serde_json::Value::Bool(b) => Doc::Bool(b),
        serde_json::Value::Number(_) => Doc::Scalar,
        serde_json::Value::String(s) => Doc::Text(s),
        serde_json::Value::Array(a) => Doc::List(a.into_iter().map(json_to_doc).collect()),
        serde_json::Value::Object(o) =>
            Doc::Table(o.into_iter().map(|(k, v)| (k, json_to_doc(v))).collect()),
    }
}

/// The document of a JSON text, if it is one.
pub fn parse_json(text: &str) -> (r: Option<Doc>)
    ensures
        match r {
            Some(d) => json_document(text@) == Some(d@),
            None => json_document(text@) is None,
        },
{
    match json_from_str(text) {
        Ok(v) => Some(json_to_doc(v)),
        Err(_) => None,
    }
}

// ── TOML ────────────────────────────────────────────────────────────────────
/// A TOML value of `toml`.
#[verifier::external_type_specification]
#[verifier::external_body]
pub struct ExTomlValue(toml::Value);

/// A parse error of `toml`.
#[verifier::external_type_specification]
#[verifier::external_body]
pub struct ExTomlError(toml::de::Error);

/// What a TOML value holds.
pub uninterp spec fn toml_tree(v: toml::Value) -> DocModel;

/// The document that a TOML text stands for, if it is one.
pub uninterp spec fn toml_document(text: Seq<char>) -> Option<DocModel>;

/// `toml::from_str` for a `Value`: which texts are TOML documents, and what each
/// of them holds, depends on the text alone.
#[verifier::external_body]
fn toml_from_str(text: &str) -> (r: Result<toml::Value, toml::de::Error>)
    ensures
        match r {
            Ok(v) => toml_document(text@) == Some(toml_tree(v)),
            Err(_) => toml_document(text@) is None,
        },
{
    toml::from_str::<toml::Value>(text)
}

/// Takes a `toml::Value` apart: the document holds what the value holds, each
/// variant moved to its own, the entries of a table in the order in which its
/// map is walked, which is that of the keys.
#[verifier::external_body]
fn toml_to_doc(v: toml::Value) -> (r: Doc)
    ensures
        r@ == toml_tree(v),
{
    match v {
        toml::Value::String(s) => Doc::Text(s),
        toml::Value::Boolean(b) => Doc::Bool(b),
        toml::Value::Integer(_) => Doc::Scalar,
        toml::Value::Float(_) => Doc::Scalar,
        toml::Value::Datetime(_) => Doc::Scalar,
        toml::Value::Array(a) => Doc::List(a.into_iter().map(toml_to_doc).collect()),
        toml::Value::Table(t) =>
            Doc::Table(t.into_iter().map(|(k, v)| (k, toml_to_doc(v))).collect()),
    }
}

/// The document of a TOML text, if it is one.
pub fn parse_toml(text: &str) -> (r: Option<Doc>)
    ensures
        match r {
            Some(d) => toml_document(text@) == Some(d@),
            None => toml_document(text@) is None,
        },
{
    match toml_from_str(text) {
        Ok(v) => Some(toml_to_doc(v)),
        Err(_) => None,
    }
}

} // verus!
