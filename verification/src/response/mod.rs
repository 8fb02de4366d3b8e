//! The response type and the conversion protocol that turns handler return
//! values and error values into responses.
//!
//! `IntoResponse` is the capability of a value to become a complete response;
//! `ResponsePart` is the capability to contribute one aspect (status, headers,
//! body) to an existing response; `Formatter` is the pluggable policy that
//! renders one kind of error as a response. Every implementation is total:
//! each conversion is pinned to its specification-level counterpart, and
//! failures during response construction re-enter the same protocol instead
//! of escaping.

use vstd::prelude::*;

pub mod impls;

verus! {

/// A wire response: status code, header list, body text.
#[derive(PartialEq, Eq, Clone, Debug)]
pub struct Response {
    pub status: u16,
    pub headers: Vec<(String, String)>,
    pub body: String,
}

/// The mathematical shape of a response.
#[verifier::ext_equal]
pub ghost struct ResponseView {
    pub status: u16,
    pub headers: Seq<(Seq<char>, Seq<char>)>,
    pub body: Seq<char>,
}

impl View for Response {
    type V = ResponseView;

    open spec fn view(&self) -> ResponseView {
        ResponseView {
            status: self.status,
            headers: Seq::new(
                self.headers@.len(),
                |i: int| (self.headers@[i].0@, self.headers@[i].1@),
            ),
            body: self.body@,
        }
    }
}

impl ResponseView {
    /// The response every conversion starts from: `200` with no headers and
    /// an empty body.
    pub open spec fn base() -> ResponseView {
        ResponseView { status: 200, headers: Seq::empty(), body: Seq::empty() }
    }

    /// The value paired with the last occurrence of `name` in the header
    /// list: later contributions overwrite earlier ones when read.
    pub open spec fn header(self, name: Seq<char>) -> Option<Seq<char>> {
        last_header_value(self.headers, name)
    }
}

/// The value paired with the last occurrence of `name` in a header list.
pub open spec fn last_header_value(
    headers: Seq<(Seq<char>, Seq<char>)>,
    name: Seq<char>,
) -> Option<Seq<char>>
    decreases headers.len(),
{
    if headers.len() == 0 {
        None
    } else if headers.last().0 == name {
        Some(headers.last().1)
    } else {
        last_header_value(headers.drop_last(), name)
    }
}

impl Response {
    pub fn new() -> (r: Response)
        ensures
            r@ == ResponseView::base(),
    {
        let r = Response { status: 200, headers: Vec::new(), body: String::new() };
        proof {
            assert(r@ =~= ResponseView::base());
        }
        r
    }
}

/// A value that can be converted into a complete response, given a formatter
/// for anything that goes wrong on the way. The formatter is handed back when
/// the conversion succeeded, and consumed when an error was rendered instead.
pub trait IntoResponse<Fmt>: Sized {
    /// What the conversion produces.
    spec fn spec_into_response(self, fmt: Fmt) -> (ResponseView, Option<Fmt>);

    fn into_response(self, fmt: Fmt) -> (r: (Response, Option<Fmt>))
        ensures
            r.0@ == self.spec_into_response(fmt).0,
            r.1 == self.spec_into_response(fmt).1,
    ;
}

/// A value that contributes one aspect to an existing response.
pub trait ResponsePart<Fmt>: Sized {
    /// What the contribution does to a response of shape `res`.
    spec fn spec_response_part(self, res: ResponseView, fmt: Fmt) -> (ResponseView, Option<Fmt>);

    fn response_part(self, res: Response, fmt: Fmt) -> (r: (Response, Option<Fmt>))
        ensures
            r.0@ == self.spec_response_part(res@, fmt).0,
            r.1 == self.spec_response_part(res@, fmt).1,
    ;
}

/// The policy that renders one kind of error value as a response.
pub trait Formatter<E>: Sized {
    /// The response this policy gives to `err`.
    spec fn spec_format_error(self, err: E) -> ResponseView;

    fn format_error(self, err: E) -> (r: Response)
        ensures
            r@ == self.spec_format_error(err),
    ;
}

/// The built-in formatting policy: a plain `500` carrying the error's text,
/// and the routing-specific renderings of routing errors.
#[derive(Clone, Copy, Debug)]
pub struct DefaultFormatter;

impl Default for DefaultFormatter {
    fn default() -> (r: Self)
        ensures
            r == DefaultFormatter,
    {
        DefaultFormatter
    }
}

/// An error that can describe itself in one line of text, which the default
/// formatting policy places in the response body.
pub trait ErrorResponse: Sized {
    /// The error's descriptive text.
    spec fn spec_message(&self) -> Seq<char>;

    fn message(&self) -> (r: String)
        ensures
            r@ == self.spec_message(),
    ;
}

/// A free-standing error text, for handler errors whose type lives outside
/// this crate: the caller captures the error's display text and sends it
/// through the same conversion protocol as every other error.
#[derive(PartialEq, Eq, Clone, Debug)]
pub struct ErrorText(pub String);

impl ErrorResponse for ErrorText {
    open spec fn spec_message(&self) -> Seq<char> {
        self.0@
    }

    fn message(&self) -> (r: String) {
        self.0.clone()
    }
}

} // verus!
