//! Parameter documents: what the library reads of a JSON text, through
//! `serde_json`.

use vstd::prelude::*;

verus! {

#[verifier::external_type_specification]
#[verifier::external_body]
pub struct ExValue(serde_json::Value);

/// What the library reads of the members of a document, by their names: for
/// each member, the unsigned integer that it holds, if it holds one, and the
/// key of the real number that it holds, if it holds a number. The key of a
/// real number is the bit pattern of its double-precision encoding.
pub type Members = Map<Seq<char>, (Option<u64>, Option<u64>)>;

/// The members of a document.
pub uninterp spec fn json_members(document: serde_json::Value) -> Members;

/// What a value holds as a number: the unsigned integer that it holds, if it
/// holds one, and the key of the real number that it holds, if it holds a
/// number.
pub uninterp spec fn json_number(value: serde_json::Value) -> (Option<u64>, Option<u64>);

/// The members of the document that a text stands for, or nothing where the
/// text is not a JSON document.
pub uninterp spec fn json_parse(text: Seq<char>) -> Option<Members>;

/// The message that says why a text is not a JSON document.
pub uninterp spec fn json_error(text: Seq<char>) -> Seq<char>;

/// The text that stands for a real number in a JSON document, from the key
/// of the number.
pub uninterp spec fn json_real_text(key: u64) -> Seq<char>;

/// The unsigned integer that the member `name` holds, if there is such a
/// member and it holds one.
pub open spec fn unsigned_member(members: Members, name: Seq<char>) -> Option<u64> {
    if members.contains_key(name) {
        members[name].0
    } else {
        None
    }
}

/// The key of the real number that the member `name` holds, if there is such
/// a member and it holds a number.
pub open spec fn real_member(members: Members, name: Seq<char>) -> Option<u64> {
    if members.contains_key(name) {
        members[name].1
    } else {
        None
    }
}

/// Calls `serde_json::from_str` for a `serde_json::Value`, and hands out the
/// message of the error where it fails. The contract claims that the call
/// succeeds on the texts that are JSON documents, that the value then holds
/// the members of the document, and that the message depends on the text
/// alone.
#[verifier::external_body]
pub(crate) fn parse_document(text: &str) -> (result: Result<serde_json::Value, String>)
    ensures
        match result {
            Ok(document) => json_parse(text@) == Some(json_members(document)),
            Err(message) => json_parse(text@) is None && message@ == json_error(text@),
        },
{
    serde_json::from_str::<serde_json::Value>(text).map_err(|error| error.to_string())
}

/// Calls `serde_json::Value::get` with a name. The contract claims that the
/// result is the member of that name, where the document has one, and that
/// the member holds as a number what the members of the document say.
#[verifier::external_body]
pub(crate) fn document_member<'a>(document: &'a serde_json::Value, name: &str) -> (member: Option<
    &'a serde_json::Value,
>)
    ensures
        match member {
            Some(member) => json_members(*document).contains_key(name@) && json_number(*member)
                == json_members(*document)[name@],
            None => !json_members(*document).contains_key(name@),
        },
{
    document.get(name)
}

/// Calls `serde_json::Value::as_u64`. The contract claims that the result
/// is the unsigned integer that the value holds, if it holds one.
#[verifier::external_body]
pub(crate) fn value_unsigned(value: &serde_json::Value) -> (unsigned: Option<u64>)
    ensures
        unsigned == json_number(*value).0,
{
    value.as_u64()
}

/// Calls `serde_json::Value::as_f64`, and `serde_json::to_string` on the
/// number. The contract claims that the result holds the key of the real
/// number that the value holds, if it holds a number, with the text that
/// stands for this number in a JSON document.
#[verifier::external_body]
pub(crate) fn value_real(value: &serde_json::Value) -> (number: Option<(u64, String)>)
    ensures
        match number {
            Some((key, text)) => json_number(*value).1 == Some(key) && text@ == json_real_text(key),
            None => json_number(*value).1 is None,
        },
{
    value.as_f64().and_then(|x| serde_json::to_string(&x).ok().map(|text| (x.to_bits(), text)))
}

} // verus!
