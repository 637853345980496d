//! JSON values, as `serde_json` reads and writes them.
//!
//! `serde_json` parses and prints; what this module trusts of it stands in the
//! contracts below, over a mathematical tree.
use serde_json::Value;
use vstd::prelude::*;

verus! {

/// A JSON value as a tree.
#[verifier::ext_equal]
pub enum Json {
    Null,
    Bool(bool),
    /// A number that is held as an integer: one of 64 bits, with or without a
    /// sign.
    Integer(int),
    /// Any other number, by the bits of the double that holds it.
    Real(u64),
    Text(Seq<char>),
    Array(Seq<Json>),
    Object(Map<Seq<char>, Json>),
}

/// The member `name` of a value: none unless the value is an object that has it.
pub open spec fn member(value: Json, name: Seq<char>) -> Option<Json> {
    match value {
        Json::Object(members) if members.contains_key(name) => Some(members[name]),
        _ => None,
    }
}

/// The text of a value, where it is a string.
pub open spec fn text(value: Json) -> Option<Seq<char>> {
    match value {
        Json::Text(text) => Some(text),
        _ => None,
    }
}

/// The number of a value, where it is an integer that fits in 64 bits with a
/// sign.
pub open spec fn integer(value: Json) -> Option<i64> {
    match value {
        Json::Integer(i) if i64::MIN <= i <= i64::MAX => Some(i as i64),
        _ => None,
    }
}

/// Whether every number in a value is held as an integer.
pub open spec fn whole(value: Json) -> bool
    decreases value,
{
    match value {
        Json::Real(_) => false,
        Json::Array(items) => forall|i: int| 0 <= i < items.len() ==> whole(#[trigger] items[i]),
        Json::Object(members) => forall|name: Seq<char>| #[trigger]
            members.contains_key(name) ==> whole(members[name]),
        _ => true,
    }
}

/// Whether arrays and objects lie in one another at most `levels` deep.
pub open spec fn nests(value: Json, levels: nat) -> bool
    decreases levels,
{
    match value {
        Json::Array(items) => levels > 0 && forall|i: int|
            0 <= i < items.len() ==> nests(#[trigger] items[i], (levels - 1) as nat),
        Json::Object(members) => levels > 0 && forall|name: Seq<char>| #[trigger]
            members.contains_key(name) ==> nests(members[name], (levels - 1) as nat),
        _ => true,
    }
}

/// The type of a parsed JSON value.
#[verifier::external_type_specification]
#[verifier::external_body]
pub struct ExValue(serde_json::Value);

/// How deep arrays and objects may nest in a text that `serde_json` parses.
pub const DEEPEST: u8 = 127;

/// What a `serde_json::Value` holds.
pub uninterp spec fn tree(value: Value) -> Json;

/// What `serde_json::from_str` makes of a text: a value, or the message that it
/// refuses the text with.
pub uninterp spec fn parsed(json: Seq<char>) -> Result<Json, Seq<char>>;

/// Whether `serde_json::from_str` makes `value` of a text.
pub open spec fn reads_as(json: Seq<char>, value: Json) -> bool {
    parsed(json) == Ok::<Json, Seq<char>>(value)
}

/// What `Value::to_string` prints: compact JSON text.
pub uninterp spec fn printed(value: Json) -> Seq<char>;

/// A value that nests no deeper than some levels nests no deeper than more.
proof fn lemma_more_levels(value: Json, levels: nat, more: nat)
    requires
        nests(value, levels),
        levels <= more,
    ensures
        nests(value, more),
    decreases levels,
{
    match value {
        Json::Array(items) => {
            assert forall|i: int| 0 <= i < items.len() implies nests(
                #[trigger] items[i],
                (more - 1) as nat,
            ) by {
                lemma_more_levels(items[i], (levels - 1) as nat, (more - 1) as nat);
            }
        },
        Json::Object(members) => {
            assert forall|name: Seq<char>| #[trigger] members.contains_key(name) implies nests(
                members[name],
                (more - 1) as nat,
            ) by {
                lemma_more_levels(members[name], (levels - 1) as nat, (more - 1) as nat);
            }
        },
        _ => {},
    }
}

/// What lies in an array or an object nests no deeper than that.
pub proof fn lemma_parts_nest(value: Json, levels: nat)
    requires
        nests(value, levels),
    ensures
        value matches Json::Array(items) ==> forall|i: int|
            0 <= i < items.len() ==> nests(#[trigger] items[i], levels),
        forall|name: Seq<char>| #[trigger]
            member(value, name) is Some ==> nests(member(value, name)->0, levels),
{
    match value {
        Json::Array(items) => {
            assert forall|i: int| 0 <= i < items.len() implies nests(
                #[trigger] items[i],
                levels,
            ) by {
                lemma_more_levels(items[i], (levels - 1) as nat, levels);
            }
        },
        Json::Object(members) => {
            assert forall|name: Seq<char>| #[trigger] member(value, name) is Some implies nests(
                member(value, name)->0,
                levels,
            ) by {
                lemma_more_levels(members[name], (levels - 1) as nat, levels);
            }
        },
        _ => {},
    }
}

/// The items of an array.
pub open spec fn trees(values: Seq<Value>) -> Seq<Json> {
    values.map_values(|value: Value| tree(value))
}

/// `Value::as_array`: the items, in order, of an array; nothing of any other
/// value.
pub assume_specification[ serde_json::Value::as_array ](value: &Value) -> (items: Option<
    &Vec<Value>,
>)
    ensures
        match items {
            Some(items) => tree(*value) == Json::Array(trees(items@)),
            None => !(tree(*value) is Array),
        },
;

/// `Value::as_str`: the text of a string; nothing of any other value.
pub assume_specification[ serde_json::Value::as_str ](value: &Value) -> (found: Option<&str>)
    ensures
        match found {
            Some(found) => text(tree(*value)) == Some(found@),
            None => text(tree(*value)) is None,
        },
;

/// `Value::as_i64`: the number of an integer that fits; nothing of any other
/// value.
pub assume_specification[ serde_json::Value::as_i64 ](value: &Value) -> (found: Option<i64>)
    ensures
        found == integer(tree(*value)),
;

/// `Value::get` with a string: the member of that name of an object that has
/// one; nothing of any other value.
#[verifier::external_body]
pub(crate) fn get<'a>(value: &'a Value, name: &str) -> (found: Option<&'a Value>)
    ensures
        match found {
            Some(found) => member(tree(*value), name@) == Some(tree(*found)),
            None => member(tree(*value), name@) is None,
        },
{
    value.get(name)
}

/// `Value::to_string`: the value as compact JSON text, which its tree
/// determines. Where every number is an integer, and arrays and objects nest no
/// deeper than the parser follows, `serde_json::from_str` makes the same value
/// of that text again: integers are printed with all their digits, a string is
/// escaped just where the parser undoes it, and no name occurs twice in an
/// object. Of other numbers this is not claimed: the parser rounds what it reads
/// to a double that may be a neighbour of the one that was printed.
#[verifier::external_body]
pub(crate) fn print(value: &Value) -> (json: String)
    ensures
        json@ == printed(tree(*value)),
        whole(tree(*value)) && nests(tree(*value), DEEPEST as nat) ==> reads_as(
            json@,
            tree(*value),
        ),
{
    value.to_string()
}

/// `serde_json::from_str` into a `Value`: a value or a refusal, of which the
/// message is kept. Either depends on the text alone. A text in which arrays and
/// objects nest too deep is refused.
#[verifier::external_body]
pub(crate) fn parse(json: &str) -> (value: Result<Value, String>)
    ensures
        match value {
            Ok(value) => {
                &&& reads_as(json@, tree(value))
                &&& nests(tree(value), DEEPEST as nat)
            },
            Err(message) => parsed(json@) == Err::<Json, Seq<char>>(message@),
        },
{
    match serde_json::from_str::<Value>(json) {
        Ok(value) => Ok(value),
        Err(error) => Err(error.to_string()),
    }
}

} // verus!
