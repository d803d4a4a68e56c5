//! Reading members out of JSON texts.

use vstd::prelude::*;

verus! {

/// What a JSON text holds under a key.
#[derive(Debug)]
pub enum Member {
    /// The text is no JSON.
    Unreadable,
    /// The text is no object, or has no such member.
    Absent,
    /// The member is a string, with this content.
    Text(String),
    /// The member is something else, with this JSON text.
    Other(String),
}

/// The mathematical value of a [`Member`].
pub enum MemberView {
    Unreadable,
    Absent,
    Text(Seq<char>),
    Other(Seq<char>),
}

impl View for Member {
    type V = MemberView;

    open spec fn view(&self) -> MemberView {
        match self {
            Member::Unreadable => MemberView::Unreadable,
            Member::Absent => MemberView::Absent,
            Member::Text(s) => MemberView::Text(s@),
            Member::Other(s) => MemberView::Other(s@),
        }
    }
}

impl MemberView {
    /// The content of the member where it is a string.
    pub open spec fn string(self) -> Option<Seq<char>> {
        match self {
            MemberView::Text(s) => Some(s),
            _ => None,
        }
    }

    /// The member as a text: the content of a string, the JSON text of
    /// anything else, and `null` for what is not there.
    pub open spec fn text(self) -> Seq<char> {
        match self {
            MemberView::Text(s) => s,
            MemberView::Other(s) => s,
            _ => "null"@,
        }
    }
}

/// What the JSON text `text` holds under `key`, as serde_json reads it.
pub uninterp spec fn json_member(text: Seq<char>, key: Seq<char>) -> MemberView;

/// `serde_json::from_str` into a `serde_json::Value`, then `Value::get`
/// with `key`. A text that does not parse is `Unreadable`; a value that is
/// no object or lacks the member is `Absent`; a string member comes with
/// its content, any other member with the text that serde_json prints for
/// it. The result is known by the name `json_member` only.
#[verifier::external_body]
pub(crate) fn read_member(text: &str, key: &str) -> (r: Member)
    ensures
        r@ == json_member(text@, key@),
{
    match serde_json::from_str::<serde_json::Value>(text) {
        Err(_) => Member::Unreadable,
        Ok(document) => match document.get(key) {
            None => Member::Absent,
            Some(serde_json::Value::String(s)) => Member::Text(s.clone()),
            Some(other) => Member::Other(other.to_string()),
        },
    }
}

impl Member {
    /// The content of the member where it is a string.
    pub fn string(self) -> (r: Option<String>)
        ensures
            r.deep_view() == self@.string(),
    {
        match self {
            Member::Text(s) => Some(s),
            _ => None,
        }
    }

    /// The member as a text.
    pub fn text(self) -> (r: String)
        ensures
            r@ == self@.text(),
    {
        match self {
            Member::Text(s) => s,
            Member::Other(s) => s,
            _ => "null".to_owned(),
        }
    }
}

} // verus!
