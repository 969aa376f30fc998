//! JSON values, as far as the message rules look into them.

use vstd::prelude::*;

verus! {

/// A JSON value of `serde_json`.
#[verifier::external_type_specification]
#[verifier::external_body]
pub struct ExValue(serde_json::Value);

/// The keys of a JSON object; none for a value that is no object.
pub uninterp spec fn json_keys(value: serde_json::Value) -> Set<Seq<char>>;

/// The compact text that `serde_json` writes for a JSON value.
pub uninterp spec fn json_text(value: serde_json::Value) -> Seq<char>;

/// What `serde_json::from_str` reads from a text: a JSON value, or the text of the error.
pub uninterp spec fn json_value(text: Seq<char>) -> Result<serde_json::Value, Seq<char>>;

/// The JSON string that holds the given characters, as `serde_json` makes it.
pub uninterp spec fn json_string_value(text: Seq<char>) -> serde_json::Value;

/// The JSON number for the given integer, as `serde_json` makes it.
pub uninterp spec fn json_int_value(number: int) -> serde_json::Value;

/// The JSON object with the given members, as `serde_json` makes it.
pub uninterp spec fn json_object_value(
    members: Seq<(Seq<char>, serde_json::Value)>,
) -> serde_json::Value;

/// `<serde_json::Value as Clone>::clone` gives an equal value.
pub assume_specification[ <serde_json::Value as Clone>::clone ](
    value: &serde_json::Value,
) -> (r: serde_json::Value)
    ensures
        r == *value,
;

/// Calls `serde_json::from_str` for a JSON value. Claimed of it: whether it reads a value, which
/// value, and the text of its error depend on the text alone.
#[verifier::external_body]
pub(crate) fn parse_json(text: &str) -> (r: Result<serde_json::Value, String>)
    ensures
        (match r {
            Ok(value) => json_value(text@) == Ok::<serde_json::Value, Seq<char>>(value),
            Err(reason) => json_value(text@) == Err::<serde_json::Value, Seq<char>>(reason@),
        }),
{
    match serde_json::from_str::<serde_json::Value>(text) {
        Ok(value) => Ok(value),
        Err(error) => Err(error.to_string()),
    }
}

/// Calls `serde_json::Value::get` with a key. Claimed of it: it finds something exactly where the
/// value is an object that has the key.
#[verifier::external_body]
pub(crate) fn has_key(value: &serde_json::Value, key: &str) -> (r: bool)
    ensures
        r == json_keys(*value).contains(key@),
{
    value.get(key).is_some()
}

/// Calls `<serde_json::Value as ToString>::to_string`. Claimed of it: the text depends on the value
/// alone.
#[verifier::external_body]
pub(crate) fn to_text(value: &serde_json::Value) -> (r: String)
    ensures
        r@ == json_text(*value),
{
    value.to_string()
}

/// Calls `<serde_json::Value as From<&str>>::from`. Claimed of it: the value depends on the text
/// alone, and is no object.
#[verifier::external_body]
pub(crate) fn string_value(text: &str) -> (r: serde_json::Value)
    ensures
        r == json_string_value(text@),
        json_keys(r) == Set::<Seq<char>>::empty(),
{
    serde_json::Value::from(text)
}

/// Calls `<serde_json::Value as From<i64>>::from`. Claimed of it: the value depends on the number
/// alone, and is no object.
#[verifier::external_body]
pub(crate) fn int_value(number: i64) -> (r: serde_json::Value)
    ensures
        r == json_int_value(number as int),
        json_keys(r) == Set::<Seq<char>>::empty(),
{
    serde_json::Value::from(number)
}

/// Members of a JSON object, with their names as characters.
pub open spec fn members_view(members: Seq<(String, serde_json::Value)>) -> Seq<
    (Seq<char>, serde_json::Value),
> {
    members.map_values(|m: (String, serde_json::Value)| (m.0@, m.1))
}

/// Whether a member of that name is among `members`.
pub open spec fn has_member(members: Seq<(Seq<char>, serde_json::Value)>, name: Seq<char>) -> bool {
    exists|i: int| 0 <= i < members.len() && (#[trigger] members[i]).0 == name
}

/// Calls `<serde_json::Value as FromIterator<(String, serde_json::Value)>>::from_iter`. Claimed of
/// it: the value depends on the members alone, and is an object whose keys are their names.
#[verifier::external_body]
pub(crate) fn object_value(members: Vec<(String, serde_json::Value)>) -> (r: serde_json::Value)
    ensures
        r == json_object_value(members_view(members@)),
        forall|name: Seq<char>| #[trigger]
            json_keys(r).contains(name) <==> has_member(members_view(members@), name),
{
    <serde_json::Value as FromIterator<(String, serde_json::Value)>>::from_iter(members)
}

} // verus!
