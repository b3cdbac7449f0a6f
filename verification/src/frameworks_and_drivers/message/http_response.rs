//! A response and the text it is sent as.
use vstd::prelude::*;

use crate::frameworks_and_drivers::message::http_status::{status_code, status_text, HttpStatus};
use crate::text::{append_decimal, decimal};

verus! {

pub struct HttpResponse {
    status: HttpStatus,
    content: String,
    response: String,
}

pub struct ResponseView {
    pub status: HttpStatus,
    pub content: Seq<char>,
    /// The text last built, to be sent.
    pub response: Seq<char>,
}

impl View for HttpResponse {
    type V = ResponseView;

    closed spec fn view(&self) -> ResponseView {
        ResponseView { status: self.status, content: self.content@, response: self.response@ }
    }
}

/// The number of bytes that `content` takes in UTF-8 (a text held in memory
/// takes fewer bytes than `usize` counts, so the cast keeps the number).
pub open spec fn byte_length(content: Seq<char>) -> nat {
    (vstd::utf8::encode_utf8(content).len() as usize) as nat
}

/// The text sent for a response: status line, content type and length, a
/// blank line, then the content.
pub open spec fn response_text(status: HttpStatus, content: Seq<char>) -> Seq<char> {
    "HTTP/1.1 "@ + decimal(status_code(status) as nat) + " "@ + status_text(status)
        + "\r\nContent-Type: text/plain; charset=utf-8\r\nContent-Length: "@ + decimal(
        byte_length(content),
    ) + "\r\n\r\n"@ + content
}

/// What a response text holds before the number of bytes of its content: the
/// status line, the content type and the name of the content length.
pub open spec fn response_head(status: HttpStatus) -> Seq<char> {
    "HTTP/1.1 "@ + decimal(status_code(status) as nat) + " "@ + status_text(status)
        + "\r\nContent-Type: text/plain; charset=utf-8\r\nContent-Length: "@
}

/// The content of the page that reports the environment the server runs in.
pub open spec fn health_text(env: Seq<char>) -> Seq<char> {
    "200 OK\nRUST_ENV="@ + env + "\n"@
}

impl HttpResponse {
    /// A response with status 200, no content, and nothing built yet.
    pub fn new() -> (r: HttpResponse)
        ensures
            r@ == (ResponseView {
                status: HttpStatus::Success,
                content: Seq::empty(),
                response: Seq::empty(),
            }),
    {
        HttpResponse { status: HttpStatus::Success, content: String::new(), response: String::new() }
    }

    /// A response with this status and content, built.
    pub fn answer(status: HttpStatus, content: &str) -> (r: HttpResponse)
        ensures
            r@.status == status,
            r@.content == content@,
            r@.response == response_text(status, content@),
    {
        let mut r = HttpResponse::new();
        r.set_http_status(status);
        r.set_content(content);
        r.build();
        r
    }

    /// The page that reports the environment `env` the server runs in.
    pub fn health(env: &str) -> (r: HttpResponse)
        ensures
            r@.status == HttpStatus::Success,
            r@.content == health_text(env@),
            r@.response == response_text(HttpStatus::Success, health_text(env@)),
    {
        let mut content = String::from_str("200 OK\nRUST_ENV=");
        content.append(env);
        content.append("\n");
        HttpResponse::answer(HttpStatus::Success, content.as_str())
    }

    pub fn set_http_status(&mut self, status: HttpStatus)
        ensures
            final(self)@ == (ResponseView { status, ..old(self)@ }),
    {
        self.status = status;
    }

    pub fn set_content(&mut self, content: &str)
        ensures
            final(self)@ == (ResponseView { content: content@, ..old(self)@ }),
    {
        self.content = content.to_owned();
    }

    /// Builds the text to send from the status and the content.
    pub fn build(&mut self)
        ensures
            final(self)@ == (ResponseView {
                response: response_text(old(self)@.status, old(self)@.content),
                ..old(self)@
            }),
    {
        let mut r = String::from_str("HTTP/1.1 ");
        append_decimal(&mut r, self.status.get_code() as u64);
        r.append(" ");
        r.append(self.status.get_description());
        r.append("\r\nContent-Type: text/plain; charset=utf-8\r\nContent-Length: ");
        let len = self.content.as_str().len();
        assert(len as nat == byte_length(self.content@));
        append_decimal(&mut r, len as u64);
        r.append("\r\n\r\n");
        r.append(self.content.as_str());
        assert(r@ =~= response_text(self.status, self.content@));
        self.response = r;
    }

    pub fn get_http_status(&self) -> (r: HttpStatus)
        ensures
            r == self@.status,
    {
        self.status
    }

    pub fn get_content(&self) -> (r: &str)
        ensures
            r@ == self@.content,
    {
        self.content.as_str()
    }

    /// The text last built.
    pub fn view_response(&self) -> (r: &str)
        ensures
            r@ == self@.response,
    {
        self.response.as_str()
    }
}

/// Whatever the status, a response text declares the content's length in
/// bytes, then a blank line, then carries the whole content: it ends with the
/// content.
pub proof fn law_response_carries_content(status: HttpStatus, content: Seq<char>)
    ensures
        response_text(status, content) == response_head(status) + decimal(byte_length(content))
            + seq!['\r', '\n', '\r', '\n'] + content,
        response_text(status, content).skip(response_text(status, content).len() - content.len())
            == content,
{
    reveal_strlit("\r\n\r\n");
    assert("\r\n\r\n"@ =~= seq!['\r', '\n', '\r', '\n']);
    let t = response_text(status, content);
    assert(t =~= response_head(status) + decimal(byte_length(content)) + seq!['\r', '\n', '\r', '\n'] + content);
    assert(t.skip(t.len() - content.len()) =~= content);
}

} // verus!
