//! The public address, read from the answer of an address-echo service.
//!
//! The service answers with a JSON object that holds the address as text
//! under the key `ip`.

use vstd::prelude::*;
use vstd::string::*;

verus! {

/// Why no public address could be had.
#[derive(Clone, Copy, Debug, PartialEq, Eq, Structural)]
pub enum NetworkError {
    /// The answer is not JSON.
    InvalidJson,
    /// The answer is JSON, but no object.
    NotAnObject,
}

/// What a JSON document holds under one key, as far as the resolver reads
/// it.
#[derive(Debug)]
pub struct Member {
    /// Whether the document is an object.
    pub in_object: bool,
    /// The text under the key, where the document is an object that holds
    /// a string there.
    pub text: Option<String>,
}

pub struct MemberView {
    pub in_object: bool,
    pub text: Option<Seq<char>>,
}

impl View for Member {
    type V = MemberView;

    open spec fn view(&self) -> MemberView {
        MemberView {
            in_object: self.in_object,
            text: match self.text {
                Some(text) => Some(text@),
                None => None,
            },
        }
    }
}

/// `serde_json::Error`: why a text is not JSON. It is handed on unread.
#[verifier::external_type_specification]
#[verifier::external_body]
pub struct ExJsonError(serde_json::Error);

/// What `serde_json` reads from `body` under `key`: nothing where `body`
/// is not one JSON document.
pub uninterp spec fn json_member(body: Seq<char>, key: Seq<char>) -> Option<MemberView>;

/// `serde_json::from_str` into a `serde_json::Value`, read with
/// `Value::is_object`, `Value::get` and `Value::as_str`. The parse depends
/// on `body` alone and the three readers on the parsed value and `key`
/// alone, so the outcome has a name.
#[verifier::external_body]
fn read_member(body: &str, key: &str) -> (read: Result<Member, serde_json::Error>)
    ensures
        match read {
            Ok(member) => json_member(body@, key@) == Some(member@),
            Err(_) => json_member(body@, key@) is None,
        },
{
    let document: serde_json::Value = serde_json::from_str(body)?;
    let text = document.get(key).and_then(serde_json::Value::as_str).map(String::from);
    Ok(Member { in_object: document.is_object(), text })
}

/// The text that stands for an address that the service did not name.
pub open spec fn unknown_address() -> Seq<char> {
    "?"@
}

/// The address that a read document yields.
pub open spec fn address_of(read: Option<MemberView>) -> Result<Seq<char>, NetworkError> {
    match read {
        None => Err(NetworkError::InvalidJson),
        Some(member) => if !member.in_object {
            Err(NetworkError::NotAnObject)
        } else {
            match member.text {
                Some(text) => Ok(text),
                None => Ok(unknown_address()),
            }
        },
    }
}

/// The address that the answer `body` yields.
pub open spec fn resolved_address(body: Seq<char>) -> Result<Seq<char>, NetworkError> {
    address_of(json_member(body, "ip"@))
}

/// The outcome of a resolution, with the address as a sequence of
/// characters.
pub open spec fn outcome_view(out: Result<String, NetworkError>) -> Result<
    Seq<char>,
    NetworkError,
> {
    match out {
        Ok(address) => Ok(address@),
        Err(error) => Err(error),
    }
}

/// What was read, with the text as a sequence of characters.
pub open spec fn read_view(read: Option<Member>) -> Option<MemberView> {
    match read {
        Some(member) => Some(member@),
        None => None,
    }
}

/// The address that a read document yields: the text under the key, the
/// placeholder `?` where an object holds no text there, and an error
/// where the document is no object or could not be read at all.
pub fn address_from_member(read: Option<Member>) -> (out: Result<String, NetworkError>)
    ensures
        outcome_view(out) == address_of(read_view(read)),
{
    match read {
        None => Err(NetworkError::InvalidJson),
        Some(member) => {
            if !member.in_object {
                Err(NetworkError::NotAnObject)
            } else {
                match member.text {
                    Some(text) => Ok(text),
                    None => Ok(String::from_str("?")),
                }
            }
        },
    }
}

/// The public address that the service's answer names.
pub fn resolve_address(body: &str) -> (out: Result<String, NetworkError>)
    ensures
        outcome_view(out) == resolved_address(body@),
{
    let read = match read_member(body, "ip") {
        Ok(member) => Some(member),
        Err(_) => None,
    };
    address_from_member(read)
}

} // verus!
