use vstd::prelude::*;

verus! {

/// Whether a text is one valid JSON document.
pub uninterp spec fn json_valid(s: Seq<char>) -> bool;

/// Whether a text is a valid JSON document whose top level is an object.
pub uninterp spec fn json_object(s: Seq<char>) -> bool;

/// Whether the top level of the JSON text `s` is an object with the
/// field `key`.
pub uninterp spec fn json_has_field(s: Seq<char>, key: Seq<char>) -> bool;

/// The string in field `key` at the top level of the JSON text `s`:
/// `Some` of its characters exactly when `s` is valid JSON whose top
/// level holds a string there.
pub uninterp spec fn json_str_field(s: Seq<char>, key: Seq<char>) -> Option<Seq<char>>;

/// The decimal text of the number in field `key` at the top level of the
/// JSON text `s`: `Some` exactly when `s` is valid JSON whose top level
/// holds a number there.
pub uninterp spec fn json_num_field(s: Seq<char>, key: Seq<char>) -> Option<Seq<char>>;

/// Relies on serde_json::from_str::<Value>: whether the text parses as
/// one JSON document; the parser's own description on failure.
#[verifier::external_body]
pub fn json_check(s: &str) -> (r: Result<(), String>)
    ensures
        r is Ok <==> json_valid(s@),
{
    match serde_json::from_str::<serde_json::Value>(s) {
        Ok(_) => Ok(()),
        Err(e) => Err(e.to_string()),
    }
}

/// Relies on serde_json::from_str::<Value> and Value::is_object: whether
/// the text parses as a JSON document whose top level is an object.
#[verifier::external_body]
pub fn json_is_object(s: &str) -> (r: bool)
    ensures
        r == json_object(s@),
        r ==> json_valid(s@),
{
    match serde_json::from_str::<serde_json::Value>(s) {
        Ok(v) => v.is_object(),
        Err(_) => false,
    }
}

/// Relies on serde_json::from_str::<Value>, Value::get and Value::as_str:
/// the string in field `key` of the parsed document, `Some` exactly when
/// the text is valid JSON whose top level holds a string there.
#[verifier::external_body]
pub fn json_get_str(s: &str, key: &str) -> (r: Option<String>)
    ensures
        match r {
            Some(v) => json_str_field(s@, key@) == Some(v@),
            None => json_str_field(s@, key@) is None,
        },
        r is Some ==> json_valid(s@) && json_has_field(s@, key@),
{
    let v: serde_json::Value = serde_json::from_str(s).ok()?;
    let t = v.get(key)?.as_str()?;
    Some(t.to_string())
}

/// Relies on serde_json::from_str::<Value>, Value::get and
/// Number::to_string: the decimal text of the number in field `key`,
/// `Some` exactly when the text is valid JSON whose top level holds a
/// number there.
#[verifier::external_body]
pub fn json_get_num(s: &str, key: &str) -> (r: Option<String>)
    ensures
        match r {
            Some(v) => json_num_field(s@, key@) == Some(v@),
            None => json_num_field(s@, key@) is None,
        },
        r is Some ==> json_valid(s@) && json_has_field(s@, key@),
{
    let v: serde_json::Value = serde_json::from_str(s).ok()?;
    match v.get(key)? {
        serde_json::Value::Number(n) => Some(n.to_string()),
        _ => None,
    }
}

/// Relies on serde_json::from_str::<Value> and Value::get: whether the
/// top level of the parsed document is an object with the field `key`.
#[verifier::external_body]
pub fn json_field_present(s: &str, key: &str) -> (r: bool)
    ensures
        r == json_has_field(s@, key@),
        r ==> json_valid(s@) && json_object(s@),
{
    match serde_json::from_str::<serde_json::Value>(s) {
        Ok(v) => v.get(key).is_some(),
        Err(_) => false,
    }
}

} // verus!
