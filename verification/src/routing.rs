use vstd::prelude::*;

verus! {

/// The string value of field `key` of the JSON object written in `text`:
/// `None` when `text` is not a JSON object, the field is absent, or its value
/// is not a string. It is a function of the two arguments alone, so it is
/// given a name rather than a definition.
pub uninterp spec fn json_str_field(text: Seq<char>, key: Seq<char>) -> Option<Seq<char>>;

/// Relies on serde_json::from_str and Value::get / Value::as_str: parses
/// `text` as JSON and reads the string field `key` of the top-level object.
#[verifier::external_body]
pub fn lookup_json_str_field(text: &str, key: &str) -> (r: Option<String>)
    ensures
        (match r {
            Some(s) => json_str_field(text@, key@) == Some(s@),
            None => json_str_field(text@, key@) is None,
        }),
{
    let value: serde_json::Value = match serde_json::from_str(text) {
        Ok(v) => v,
        Err(_) => return None,
    };
    match value.get(key) {
        Some(field) => field.as_str().map(|s| s.to_string()),
        None => None,
    }
}

/// The string value of field `inner` inside object field `outer` of the JSON
/// text: `None` when the text does not parse or either field is absent,
/// `Some(None)` when the inner field exists but is not a string. A function
/// of its arguments alone, so named rather than defined.
pub uninterp spec fn json_nested_str_field(
    text: Seq<char>,
    outer: Seq<char>,
    inner: Seq<char>,
) -> Option<Option<Seq<char>>>;

/// Relies on serde_json::from_str and Value::get / Value::as_str: parses
/// `text` as JSON and reads field `inner` of the object held in field
/// `outer`.
#[verifier::external_body]
pub fn lookup_json_nested_str_field(text: &str, outer: &str, inner: &str) -> (r: Option<
    Option<String>,
>)
    ensures
        (match r {
            Some(Some(s)) => json_nested_str_field(text@, outer@, inner@) == Some(Some(s@)),
            Some(None) => json_nested_str_field(text@, outer@, inner@) == Some(
                None::<Seq<char>>,
            ),
            None => json_nested_str_field(text@, outer@, inner@) is None,
        }),
{
    let value: serde_json::Value = match serde_json::from_str(text) {
        Ok(v) => v,
        Err(_) => return None,
    };
    let outer_value = match value.get(outer) {
        Some(v) => v,
        None => return None,
    };
    match outer_value.get(inner) {
        Some(inner_value) => Some(inner_value.as_str().map(|s| s.to_string())),
        None => None,
    }
}

} // verus!
