//! JSON documents, as `serde_json` reads and prints them.
//!
//! A document is carried as a `serde_json::Value`. Contracts speak of what it
//! holds: for every path of member names that leads to a value inside it,
//! the compact text of that value. The functions that call `serde_json` are
//! not proved: each states what the source of `serde_json` shows.

use vstd::prelude::*;
use crate::text::has_no_break;

verus! {

/// `serde_json::Value`: a JSON document. Nothing inside it is visible here.
#[verifier::external_type_specification]
#[verifier::external_body]
pub struct ExValue(serde_json::Value);

/// `serde_json::Error`: why a body could not be read. Nothing inside it is
/// visible here.
#[verifier::external_type_specification]
#[verifier::external_body]
pub struct ExError(serde_json::Error);

/// The contents of a document: a text for each path that leads to a value.
pub type Contents = Map<Seq<Seq<char>>, Seq<char>>;

/// What a document holds. The empty path leads to the document itself; where
/// a path leads to an object, the path extended by the name of one of its
/// members leads to that member. No other path leads anywhere. Each path that
/// leads to a value is mapped to the compact text of that value: what
/// `Display` prints for it, without added whitespace.
pub uninterp spec fn json_contents(value: serde_json::Value) -> Map<Seq<Seq<char>>, Seq<char>>;

/// What `serde_json::from_slice` makes of `body`: the contents of the
/// document it reads, or `None` where it refuses the bytes.
pub uninterp spec fn json_document(body: Seq<u8>) -> Option<Map<Seq<Seq<char>>, Seq<char>>>;

/// The compact text of the document with these contents.
pub open spec fn root_text(contents: Contents) -> Seq<char> {
    contents[Seq::empty()]
}

/// The contents of the null document.
pub open spec fn null_contents() -> Contents {
    Map::empty().insert(Seq::empty(), "null"@)
}

/// The contents of the member `key` of the document with these contents:
/// what lies below `key`, or the null document where the document is no
/// object or has no such member.
pub open spec fn member_contents(contents: Contents, key: Seq<char>) -> Contents {
    if contents.dom().contains(seq![key]) {
        Map::new(
            |path: Seq<Seq<char>>| contents.dom().contains(seq![key] + path),
            |path: Seq<Seq<char>>| contents[seq![key] + path],
        )
    } else {
        null_contents()
    }
}

/// No text in these contents holds a line break.
pub open spec fn holds_no_break(contents: Contents) -> bool {
    forall|path: Seq<Seq<char>>|
        contents.dom().contains(path) ==> has_no_break(#[trigger] contents[path])
}

/// `serde_json::from_slice` at `serde_json::Value`. Succeeds exactly on the
/// bodies that `json_document` reads, and gives the document read. No text of
/// a document that was read holds a line break: its numbers are the digits
/// that were read, its strings are printed with their line breaks escaped,
/// and the compact form adds no whitespace.
#[verifier::external_body]
pub(crate) fn parse_json(body: &[u8]) -> (parsed: Result<serde_json::Value, serde_json::Error>)
    ensures
        match parsed {
            Ok(value) => json_document(body@) == Some(json_contents(value)) && holds_no_break(
                json_contents(value),
            ),
            Err(_) => json_document(body@) is None,
        },
{
    serde_json::from_slice(body)
}

/// `Index<&str>` of `serde_json::Value`. Gives the member `key` where `value`
/// is an object that has it, and the null document otherwise.
#[verifier::external_body]
pub(crate) fn json_member<'a>(
    value: &'a serde_json::Value,
    key: &str,
) -> (member: &'a serde_json::Value)
    ensures
        json_contents(*member) == member_contents(json_contents(*value), key@),
{
    &value[key]
}

/// `to_string` of `serde_json::Value`: its compact text.
#[verifier::external_body]
pub(crate) fn json_render(value: &serde_json::Value) -> (text: String)
    ensures
        text@ == root_text(json_contents(*value)),
{
    value.to_string()
}

} // verus!
