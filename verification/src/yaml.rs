//! YAML documents, of which only single fields are read. Their text is
//! `serde_yaml`'s work.

use vstd::prelude::*;

verus! {

/// What stands under a key.
pub enum YamlField {
    Missing,
    Null,
    Bool(bool),
    Text(String),
    /// A value of another kind.
    Other,
}

/// What stands under a key, as a mathematical value.
pub ghost enum FieldView {
    Missing,
    Null,
    Bool(bool),
    Text(Seq<char>),
    Other,
}

impl View for YamlField {
    type V = FieldView;

    open spec fn view(&self) -> FieldView {
        match *self {
            YamlField::Missing => FieldView::Missing,
            YamlField::Null => FieldView::Null,
            YamlField::Bool(b) => FieldView::Bool(b),
            YamlField::Text(s) => FieldView::Text(s@),
            YamlField::Other => FieldView::Other,
        }
    }
}

/// What was read, or the message of the error.
pub open spec fn field_result(r: Result<YamlField, String>) -> Result<FieldView, Seq<char>> {
    match r {
        Ok(f) => Ok(f@),
        Err(e) => Err(e@),
    }
}

pub uninterp spec fn yaml_value_field(bytes: Seq<u8>, key: Seq<char>) -> Result<FieldView, Seq<char>>;

pub uninterp spec fn yaml_map_field(text: Seq<char>, key: Seq<char>) -> Result<FieldView, Seq<char>>;

/// `serde_yaml`'s own value, which only passes through.
#[verifier::external_type_specification]
#[verifier::external_body]
pub struct ExYamlValue(serde_yaml::Value);

/// Turns what `serde_yaml` found under a key into what this library reads. A tag is passed
/// over, as by the accessors of `serde_yaml::Value`.
#[verifier::external_body]
fn from_yaml(v: Option<&serde_yaml::Value>) -> YamlField {
    match v {
        None => YamlField::Missing,
        Some(serde_yaml::Value::Null) => YamlField::Null,
        Some(serde_yaml::Value::Bool(b)) => YamlField::Bool(*b),
        Some(serde_yaml::Value::String(s)) => YamlField::Text(s.clone()),
        Some(serde_yaml::Value::Tagged(t)) => from_yaml(Some(&t.value)),
        Some(_) => YamlField::Other,
    }
}

/// What stands under a key of any document: `serde_yaml::from_slice` into a
/// `Value`, then `get`. Nothing stands under a key of a document that is no
/// mapping. The result is a function of the bytes and the key.
#[verifier::external_body]
pub(crate) fn value_field(bytes: &[u8], key: &str) -> (r: Result<YamlField, String>)
    ensures
        field_result(r) == yaml_value_field(bytes@, key@),
{
    match serde_yaml::from_slice::<serde_yaml::Value>(bytes) {
        Ok(v) => Ok(from_yaml(v.get(key))),
        Err(e) => Err(e.to_string()),
    }
}

/// What stands under a key of a document that has to be a mapping:
/// `serde_yaml::from_str` into a map of `Value`s, then `get`. The result is a
/// function of the text and the key.
#[verifier::external_body]
pub(crate) fn map_field(text: &str, key: &str) -> (r: Result<YamlField, String>)
    ensures
        field_result(r) == yaml_map_field(text@, key@),
{
    match serde_yaml::from_str::<std::collections::BTreeMap<String, serde_yaml::Value>>(text) {
        Ok(m) => Ok(from_yaml(m.get(key))),
        Err(e) => Err(e.to_string()),
    }
}

} // verus!
