//! Replies: a status, headers and a body, as the service sends them. Every
//! reply is stamped with its instant.
use vstd::prelude::*;

use crate::json::{compact_json, compact_text, put_text, Json, JsonView};
use crate::text::Text;

verus! {

/// The body of a reply.
#[derive(Debug, PartialEq)]
pub enum Body {
    Text(String),
    /// A document, printed with indentation.
    Document(Json),
}

/// A reply.
#[derive(Debug, PartialEq)]
pub struct Reply {
    pub status: u16,
    pub headers: Vec<(String, String)>,
    pub body: Body,
}

/// What a body says.
pub enum BodyView {
    Text(Text),
    Document(JsonView),
}

/// What a reply says.
pub struct ReplyView {
    pub status: u16,
    pub headers: Seq<(Text, Text)>,
    pub body: BodyView,
}

impl Body {
    /// What the body says.
    pub open spec fn view(&self) -> BodyView {
        match self {
            Body::Text(s) => BodyView::Text(s@),
            Body::Document(j) => BodyView::Document(j.view()),
        }
    }
}

/// The names and values of headers.
pub open spec fn header_views(headers: Seq<(String, String)>) -> Seq<(Text, Text)> {
    headers.map_values(|h: (String, String)| (h.0@, h.1@))
}

impl Reply {
    /// What the reply says.
    pub open spec fn view(&self) -> ReplyView {
        ReplyView {
            status: self.status,
            headers: header_views(self.headers@),
            body: self.body.view(),
        }
    }
}

/// The headers of a reply of that content type, stamped with its instant.
pub open spec fn typed_as_of(content_type: Text, as_of: Text) -> Seq<(Text, Text)> {
    seq![("content-type"@, content_type), ("x-as-of"@, as_of)]
}

/// The headers of a reply of that content type, stamped with its instant.
pub fn stamped_headers(content_type: &str, as_of: &str) -> (r: Vec<(String, String)>)
    ensures
        header_views(r@) == typed_as_of(content_type@, as_of@),
{
    let mut headers: Vec<(String, String)> = Vec::new();
    headers.push(("content-type".to_owned(), content_type.to_owned()));
    headers.push(("x-as-of".to_owned(), as_of.to_owned()));
    assert(header_views(headers@) =~= typed_as_of(content_type@, as_of@));
    headers
}

/// A document with an error alone.
pub open spec fn error_document(reason: Text) -> JsonView {
    JsonView::Object(map!["error"@ => JsonView::Text(reason)])
}

/// A document with an error alone.
pub fn error_json(reason: &str) -> (j: Json)
    ensures
        j.view() == error_document(reason@),
        j.plain(),
        j is Object,
{
    let mut members: Vec<(String, Json)> = Vec::new();
    put_text(&mut members, "error", reason);
    Json::Object(members)
}

/// A JSON reply in compact text, stamped in its header.
pub open spec fn compact_reply(status: u16, document: JsonView, as_of: Text) -> ReplyView {
    ReplyView {
        status,
        headers: typed_as_of("application/json"@, as_of),
        body: BodyView::Text(compact_json(document)),
    }
}

/// A JSON reply in compact text, stamped in its header.
pub fn compact(status: u16, document: &Json, as_of: &str) -> (r: Reply)
    requires
        document.plain(),
    ensures
        r.view() == compact_reply(status, document.view(), as_of@),
{
    Reply {
        status,
        headers: stamped_headers("application/json", as_of),
        body: Body::Text(compact_text(document)),
    }
}

/// A compact reply carries its document as JSON text, under its content type and
/// its instant, and an error document says the reason under `error` alone.
pub proof fn law_compact_replies(status: u16, document: &Json, as_of: &str, reason: Text, r: Reply)
    requires
        call_ensures(compact, (status, document, as_of), r),
    ensures
        r.status == status,
        r.view().body == BodyView::Text(compact_json(document.view())),
        r.view().headers.len() == 2,
        r.view().headers[0] == ("content-type"@, "application/json"@),
        r.view().headers[1] == ("x-as-of"@, as_of@),
        error_document(reason).text_at("error"@) == Some(reason),
        error_document(reason) matches JsonView::Object(m) && m.dom() =~= set!["error"@],
{
    assert(r.view().status == r.status);
}

} // verus!
