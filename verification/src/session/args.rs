use vstd::prelude::*;

verus! {

/// The text under `key` in the JSON object `json`: `None` where `json` is
/// not JSON, has no such key, or holds something other than a string
/// there.
pub uninterp spec fn json_text(json: Seq<char>, key: Seq<char>) -> Option<Seq<char>>;

/// `serde_json::from_str`, then `Value::get` and `Value::as_str`. The
/// contract gives the result a name.
#[verifier::external_body]
pub(crate) fn text_arg(json: &str, key: &str) -> (r: Option<String>)
    ensures
        r.deep_view() == json_text(json@, key@),
{
    serde_json::from_str::<serde_json::Value>(json).ok()?.get(key)?.as_str().map(String::from)
}

/// The number under `key` in the JSON object `json`: `None` where `json`
/// is not JSON, has no such key, or holds something other than an integer
/// from 0 to 2^64 - 1 there.
pub uninterp spec fn json_number(json: Seq<char>, key: Seq<char>) -> Option<u64>;

/// `serde_json::from_str`, then `Value::get` and `Value::as_u64`. The
/// contract gives the result a name.
#[verifier::external_body]
pub(crate) fn number_arg(json: &str, key: &str) -> (r: Option<u64>)
    ensures
        r == json_number(json@, key@),
{
    serde_json::from_str::<serde_json::Value>(json).ok()?.get(key)?.as_u64()
}

/// The members of the object under `key` in the JSON object `json`, in the
/// order in which serde_json's map hands them out, each with its text if
/// it is a string: `None` where `json` is not JSON, has no such key, or
/// holds something other than an object there.
pub uninterp spec fn json_members(json: Seq<char>, key: Seq<char>) -> Option<
    Seq<(Seq<char>, Option<Seq<char>>)>,
>;

/// `serde_json::from_str`, then `Value::get`, `Value::as_object` and the
/// map's `iter`. The contract gives the result a name; each member is
/// handed out as owned text.
#[verifier::external_body]
pub(crate) fn members_arg(json: &str, key: &str) -> (r: Option<Vec<(String, Option<String>)>>)
    ensures
        r.deep_view() == json_members(json@, key@),
{
    let value = serde_json::from_str::<serde_json::Value>(json).ok()?;
    let members = value.get(key)?.as_object()?;
    Some(members.iter().map(|(k, v)| (k.clone(), v.as_str().map(String::from))).collect())
}

} // verus!
