//! HTTP replies as plain values: a status, a content type and a body.

use vstd::prelude::*;
use vstd::string::StringExecFns;

verus! {

/// What a handler answers.
#[derive(Debug, Clone, PartialEq, Eq)]
pub struct Reply {
    pub status: u16,
    pub content_type: String,
    pub body: String,
}

/// The mathematical content of a [`Reply`].
pub struct ReplyModel {
    pub status: int,
    pub content_type: Seq<char>,
    pub body: Seq<char>,
}

impl View for Reply {
    type V = ReplyModel;

    open spec fn view(&self) -> ReplyModel {
        ReplyModel { status: self.status as int, content_type: self.content_type@, body: self.body@ }
    }
}

/// A reply with the content type `text/html`.
pub open spec fn html_reply(status: int, body: Seq<char>) -> ReplyModel {
    ReplyModel { status, content_type: "text/html"@, body }
}

impl Reply {
    /// A reply with the content type `text/html`, which every handler but
    /// the plant handler uses, whatever the body holds.
    pub fn html(status: u16, body: String) -> (r: Reply)
        ensures
            r@ == html_reply(status as int, body@),
    {
        Reply { status, content_type: String::from_str("text/html"), body }
    }

    /// A reply with the given content type.
    pub fn with_type(status: u16, content_type: &str, body: String) -> (r: Reply)
        ensures
            r@ == (ReplyModel { status: status as int, content_type: content_type@, body: body@ }),
    {
        Reply { status, content_type: String::from_str(content_type), body }
    }
}

} // verus!
