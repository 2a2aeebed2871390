//! The trusted boundary to the YAML decoder: everything this library
//! assumes of `serde_yaml` stands in this module.

use vstd::prelude::*;

verus! {

/// `serde_yaml::Error`, the decoder's diagnostic. It is carried through
/// this library opaquely: callers distinguish error kinds, never the
/// diagnostic's content.
#[verifier::external_type_specification]
#[verifier::external_body]
pub struct ExYamlError(serde_yaml::Error);

/// What the YAML decoder yields for one text field of a header block:
/// `Some(t)` when the block is a YAML mapping that binds `field` to the
/// text `t` (an empty value counts as the empty text), `None` when the
/// block is malformed, is not a mapping, lacks `field`, or binds it to a
/// value of another shape.
pub uninterp spec fn yaml_text_field(block: Seq<char>, field: Seq<char>) -> Option<Seq<char>>;

/// Relies on `serde_yaml::from_str` and `serde_yaml::Value::get`: the block
/// is decoded as YAML and `field` is looked up in the decoded mapping. A
/// text value is handed back as it is; an empty value decodes to the empty
/// string, as the decoder itself does for a text field; a missing field or
/// a value of another shape becomes a decoder error (built with
/// `serde::de::Error::custom`), and malformed YAML is the decoder's own
/// error. The result depends on the two arguments alone.
#[verifier::external_body]
pub(crate) fn decode_text_field(block: &str, field: &str) -> (r: Result<String, serde_yaml::Error>)
    ensures
        (r matches Ok(t) ==> yaml_text_field(block@, field@) == Some(t@)),
        (r matches Err(_) ==> yaml_text_field(block@, field@) is None),
{
    match serde_yaml::from_str::<serde_yaml::Value>(block) {
        Ok(doc) => match doc.get(field) {
            Some(serde_yaml::Value::String(t)) => Ok(t.clone()),
            Some(serde_yaml::Value::Null) => Ok(String::new()),
            _ => Err(<serde_yaml::Error as serde::de::Error>::custom("missing or non-text field")),
        },
        Err(e) => Err(e),
    }
}

} // verus!
