//! Concrete conversions of the response protocol.
//!
//! Composition order for tuples follows the protocol: build the base
//! response, apply the terminal (last) element first, then apply each leading
//! part left to right, short-circuiting into the formatter as soon as one
//! contribution fails.

use vstd::prelude::*;

use super::{
    last_header_value, DefaultFormatter, ErrorResponse, ErrorText, Formatter, IntoResponse,
    Response, ResponsePart, ResponseView,
};
use crate::mime;
use crate::request::ext::InvalidParamEncoding;
use crate::router::{RouteError, RouteErrorKind};
use vstd::string::StringExecFns;

verus! {

/// Whether `c` may stand in a header name: a character of the HTTP token
/// alphabet — letters of either case, digits, and the token punctuation
/// (exclamation mark, hash, dollar, percent, ampersand, apostrophe,
/// asterisk, plus, hyphen, dot, caret, underscore, backtick, bar, tilde).
pub open spec fn header_name_char(c: char) -> bool {
    let u = c as u32;
    (97 <= u && u <= 122) || (65 <= u && u <= 90) || (48 <= u && u <= 57) || u == 33 || (35 <= u
        && u <= 39) || u == 42 || u == 43 || u == 45 || u == 46 || u == 94 || u == 95 || u == 96
        || u == 124 || u == 126
}

/// Whether `s` is a well-formed header name.
pub open spec fn valid_header_name(s: Seq<char>) -> bool {
    s.len() > 0 && forall|i: int| 0 <= i < s.len() ==> header_name_char(#[trigger] s[i])
}

/// Whether `c` may stand in a header value: a printable character, a space
/// or a horizontal tab.
pub open spec fn header_value_char(c: char) -> bool {
    let u = c as u32;
    u == 9 || (32 <= u && u <= 126)
}

/// Whether `s` is a well-formed header value.
pub open spec fn valid_header_value(s: Seq<char>) -> bool {
    forall|i: int| 0 <= i < s.len() ==> header_value_char(#[trigger] s[i])
}

pub fn check_header_name(s: &String) -> (r: bool)
    ensures
        r == valid_header_name(s@),
{
    let n = s.as_str().unicode_len();
    if n == 0 {
        return false;
    }
    for i in 0..n
        invariant
            n == s@.len(),
            forall|j: int| 0 <= j < i ==> header_name_char(#[trigger] s@[j]),
    {
        let c = s.as_str().get_char(i);
        let u = c as u32;
        if !((97 <= u && u <= 122) || (65 <= u && u <= 90) || (48 <= u && u <= 57) || u == 33
            || (35 <= u && u <= 39) || u == 42 || u == 43 || u == 45 || u == 46 || u == 94
            || u == 95 || u == 96 || u == 124 || u == 126) {
            return false;
        }
    }
    true
}

pub fn check_header_value(s: &String) -> (r: bool)
    ensures
        r == valid_header_value(s@),
{
    let n = s.as_str().unicode_len();
    for i in 0..n
        invariant
            n == s@.len(),
            forall|j: int| 0 <= j < i ==> header_value_char(#[trigger] s@[j]),
    {
        let c = s.as_str().get_char(i);
        let u = c as u32;
        if !(u == 9 || (32 <= u && u <= 126)) {
            return false;
        }
    }
    true
}

/// A header pair that could not be placed in a response, because its name or
/// its value holds characters a header may not carry.
#[derive(PartialEq, Eq, Clone, Copy, Debug)]
pub enum InvalidHeader {
    Name,
    Value,
}

impl ErrorResponse for InvalidHeader {
    open spec fn spec_message(&self) -> Seq<char> {
        match *self {
            InvalidHeader::Name => "invalid header name"@,
            InvalidHeader::Value => "invalid header value"@,
        }
    }

    fn message(&self) -> (r: String) {
        match *self {
            InvalidHeader::Name => "invalid header name".to_owned(),
            InvalidHeader::Value => "invalid header value".to_owned(),
        }
    }
}

/// The shape of the default policy's rendering of an error: a plain-text
/// `500` whose body is the error's own text.
pub open spec fn spec_error_response(msg: Seq<char>) -> ResponseView {
    ResponseView {
        status: 500,
        headers: seq![("content-type"@, "text/plain"@)],
        body: msg,
    }
}

/// Renders any self-describing error the way the default policy does.
pub fn error_response<E: ErrorResponse>(err: &E) -> (r: Response)
    ensures
        r@ == spec_error_response(err.spec_message()),
{
    let mut headers: Vec<(String, String)> = Vec::new();
    headers.push(("content-type".to_owned(), mime::text_plain().header()));
    let r = Response { status: 500, headers, body: err.message() };
    proof {
        assert(r@ =~= spec_error_response(err.spec_message()));
    }
    r
}

impl Formatter<InvalidHeader> for DefaultFormatter {
    open spec fn spec_format_error(self, err: InvalidHeader) -> ResponseView {
        spec_error_response(err.spec_message())
    }

    fn format_error(self, err: InvalidHeader) -> (r: Response) {
        error_response(&err)
    }
}

impl Formatter<ErrorText> for DefaultFormatter {
    open spec fn spec_format_error(self, err: ErrorText) -> ResponseView {
        spec_error_response(err.0@)
    }

    fn format_error(self, err: ErrorText) -> (r: Response) {
        error_response(&err)
    }
}

impl<Fmt> ResponsePart<Fmt> for u16 {
    open spec fn spec_response_part(self, res: ResponseView, fmt: Fmt) -> (ResponseView, Option<
        Fmt,
    >) {
        (ResponseView { status: self, ..res }, Some(fmt))
    }

    fn response_part(self, res: Response, fmt: Fmt) -> (r: (Response, Option<Fmt>)) {
        let ghost orig = res@;
        let mut res = res;
        res.status = self;
        proof {
            assert(res@ =~= ResponseView { status: self, ..orig });
        }
        (res, Some(fmt))
    }
}

/// What setting the plain-text body `body` does to a response: the body is
/// replaced and the media type is recorded.
pub open spec fn spec_text_body(res: ResponseView, body: Seq<char>) -> ResponseView {
    ResponseView {
        headers: res.headers.push(("content-type"@, "text/plain"@)),
        body,
        ..res
    }
}

impl<Fmt> ResponsePart<Fmt> for String {
    open spec fn spec_response_part(self, res: ResponseView, fmt: Fmt) -> (ResponseView, Option<
        Fmt,
    >) {
        (spec_text_body(res, self@), Some(fmt))
    }

    fn response_part(self, res: Response, fmt: Fmt) -> (r: (Response, Option<Fmt>)) {
        let ghost orig = res@;
        let mut res = res;
        res.body = self;
        res.headers.push(("content-type".to_owned(), mime::text_plain().header()));
        proof {
            assert(res@ =~= spec_text_body(orig, res.body@));
        }
        (res, Some(fmt))
    }
}

impl<Fmt> ResponsePart<Fmt> for &'static str {
    open spec fn spec_response_part(self, res: ResponseView, fmt: Fmt) -> (ResponseView, Option<
        Fmt,
    >) {
        (spec_text_body(res, self@), Some(fmt))
    }

    fn response_part(self, res: Response, fmt: Fmt) -> (r: (Response, Option<Fmt>)) {
        let ghost orig = res@;
        let mut res = res;
        res.body = self.to_owned();
        res.headers.push(("content-type".to_owned(), mime::text_plain().header()));
        proof {
            assert(res@ =~= spec_text_body(orig, self@));
        }
        (res, Some(fmt))
    }
}

/// What applying the header pairs `pairs` left to right does to a response:
/// each well-formed pair is recorded, and the first ill-formed one aborts
/// the construction into the formatter.
pub open spec fn spec_headers_part<Fmt: Formatter<InvalidHeader>>(
    pairs: Seq<(Seq<char>, Seq<char>)>,
    res: ResponseView,
    fmt: Fmt,
) -> (ResponseView, Option<Fmt>)
    decreases pairs.len(),
{
    if pairs.len() == 0 {
        (res, Some(fmt))
    } else if !valid_header_name(pairs.first().0) {
        (fmt.spec_format_error(InvalidHeader::Name), None)
    } else if !valid_header_value(pairs.first().1) {
        (fmt.spec_format_error(InvalidHeader::Value), None)
    } else {
        spec_headers_part(
            pairs.drop_first(),
            ResponseView { headers: res.headers.push(pairs.first()), ..res },
            fmt,
        )
    }
}

/// The views of a list of owned header pairs.
pub open spec fn spec_pairs(pairs: Seq<(String, String)>) -> Seq<(Seq<char>, Seq<char>)> {
    Seq::new(pairs.len(), |i: int| (pairs[i].0@, pairs[i].1@))
}

impl<Fmt: Formatter<InvalidHeader>> ResponsePart<Fmt> for Vec<(String, String)> {
    open spec fn spec_response_part(self, res: ResponseView, fmt: Fmt) -> (ResponseView, Option<
        Fmt,
    >) {
        spec_headers_part(spec_pairs(self@), res, fmt)
    }

    #[verifier::loop_isolation(false)]
    fn response_part(self, res: Response, fmt: Fmt) -> (r: (Response, Option<Fmt>)) {
        let ghost all = spec_pairs(self@);
        let ghost orig = res@;
        let mut res = res;
        let n = self.len();
        proof {
            assert(spec_pairs(self@).len() == self@.len());
            assert(all.skip(0) =~= all);
        }
        for i in 0..n
            invariant
                n == self@.len(),
                all == spec_pairs(self@),
                all.len() == n,
                spec_headers_part(all, orig, fmt) == spec_headers_part(
                    all.skip(i as int),
                    res@,
                    fmt,
                ),
        {
            proof {
                assert(spec_pairs(self@)[i as int] == (self@[i as int].0@, self@[i as int].1@));
                assert(all.skip(i as int)[0] == all[i as int]);
            }
            let name_ok = check_header_name(&self[i].0);
            if !name_ok {
                return (fmt.format_error(InvalidHeader::Name), None);
            }
            let value_ok = check_header_value(&self[i].1);
            if !value_ok {
                return (fmt.format_error(InvalidHeader::Value), None);
            }
            let ghost before = res@;
            res.headers.push((self[i].0.clone(), self[i].1.clone()));
            proof {
                assert(res@ =~= ResponseView {
                    headers: before.headers.push(all.skip(i as int).first()),
                    ..before
                });
                assert(all.skip(i as int).drop_first() =~= all.skip(i + 1));
            }
        }
        proof {
            assert(all.skip(n as int) =~= Seq::<(Seq<char>, Seq<char>)>::empty());
        }
        (res, Some(fmt))
    }
}

impl<Fmt> IntoResponse<Fmt> for Response {
    open spec fn spec_into_response(self, fmt: Fmt) -> (ResponseView, Option<Fmt>) {
        (self@, Some(fmt))
    }

    fn into_response(self, fmt: Fmt) -> (r: (Response, Option<Fmt>)) {
        (self, Some(fmt))
    }
}

impl<Fmt> IntoResponse<Fmt> for () {
    open spec fn spec_into_response(self, fmt: Fmt) -> (ResponseView, Option<Fmt>) {
        (ResponseView::base(), Some(fmt))
    }

    fn into_response(self, fmt: Fmt) -> (r: (Response, Option<Fmt>)) {
        (Response::new(), Some(fmt))
    }
}

impl<Fmt> IntoResponse<Fmt> for u16 {
    open spec fn spec_into_response(self, fmt: Fmt) -> (ResponseView, Option<Fmt>) {
        self.spec_response_part(ResponseView::base(), fmt)
    }

    fn into_response(self, fmt: Fmt) -> (r: (Response, Option<Fmt>)) {
        self.response_part(Response::new(), fmt)
    }
}

impl<Fmt> IntoResponse<Fmt> for String {
    open spec fn spec_into_response(self, fmt: Fmt) -> (ResponseView, Option<Fmt>) {
        self.spec_response_part(ResponseView::base(), fmt)
    }

    fn into_response(self, fmt: Fmt) -> (r: (Response, Option<Fmt>)) {
        self.response_part(Response::new(), fmt)
    }
}

impl<Fmt> IntoResponse<Fmt> for &'static str {
    open spec fn spec_into_response(self, fmt: Fmt) -> (ResponseView, Option<Fmt>) {
        self.spec_response_part(ResponseView::base(), fmt)
    }

    fn into_response(self, fmt: Fmt) -> (r: (Response, Option<Fmt>)) {
        self.response_part(Response::new(), fmt)
    }
}

impl<Fmt: Formatter<ErrorText>> IntoResponse<Fmt> for ErrorText {
    open spec fn spec_into_response(self, fmt: Fmt) -> (ResponseView, Option<Fmt>) {
        (fmt.spec_format_error(self), None)
    }

    fn into_response(self, fmt: Fmt) -> (r: (Response, Option<Fmt>)) {
        (fmt.format_error(self), None)
    }
}

impl<Fmt, T: IntoResponse<Fmt>, E: IntoResponse<Fmt>> IntoResponse<Fmt> for Result<T, E> {
    open spec fn spec_into_response(self, fmt: Fmt) -> (ResponseView, Option<Fmt>) {
        match self {
            Ok(v) => v.spec_into_response(fmt),
            Err(e) => e.spec_into_response(fmt),
        }
    }

    fn into_response(self, fmt: Fmt) -> (r: (Response, Option<Fmt>)) {
        match self {
            Ok(v) => v.into_response(fmt),
            Err(e) => e.into_response(fmt),
        }
    }
}

impl<Fmt, R: IntoResponse<Fmt>> IntoResponse<Fmt> for (R,) {
    open spec fn spec_into_response(self, fmt: Fmt) -> (ResponseView, Option<Fmt>) {
        self.0.spec_into_response(fmt)
    }

    fn into_response(self, fmt: Fmt) -> (r: (Response, Option<Fmt>)) {
        self.0.into_response(fmt)
    }
}

impl<Fmt, T1: ResponsePart<Fmt>, R: IntoResponse<Fmt>> IntoResponse<Fmt> for (T1, R) {
    open spec fn spec_into_response(self, fmt: Fmt) -> (ResponseView, Option<Fmt>) {
        let (res, f) = self.1.spec_into_response(fmt);
        match f {
            Some(f) => self.0.spec_response_part(res, f),
            None => (res, None),
        }
    }

    fn into_response(self, fmt: Fmt) -> (r: (Response, Option<Fmt>)) {
        let (part, terminal) = self;
        let (res, f) = terminal.into_response(fmt);
        match f {
            Some(f) => part.response_part(res, f),
            None => (res, None),
        }
    }
}

impl<Fmt, T1: ResponsePart<Fmt>, T2: ResponsePart<Fmt>, R: IntoResponse<Fmt>> IntoResponse<
    Fmt,
> for (T1, T2, R) {
    open spec fn spec_into_response(self, fmt: Fmt) -> (ResponseView, Option<Fmt>) {
        let (res, f) = self.2.spec_into_response(fmt);
        match f {
            Some(f) => {
                let (res, f) = self.0.spec_response_part(res, f);
                match f {
                    Some(f) => self.1.spec_response_part(res, f),
                    None => (res, None),
                }
            },
            None => (res, None),
        }
    }

    fn into_response(self, fmt: Fmt) -> (r: (Response, Option<Fmt>)) {
        let (p1, p2, terminal) = self;
        let (res, f) = terminal.into_response(fmt);
        match f {
            Some(f) => {
                let (res, f) = p1.response_part(res, f);
                match f {
                    Some(f) => p2.response_part(res, f),
                    None => (res, None),
                }
            },
            None => (res, None),
        }
    }
}

impl<
    Fmt,
    T1: ResponsePart<Fmt>,
    T2: ResponsePart<Fmt>,
    T3: ResponsePart<Fmt>,
    R: IntoResponse<Fmt>,
> IntoResponse<Fmt> for (T1, T2, T3, R) {
    open spec fn spec_into_response(self, fmt: Fmt) -> (ResponseView, Option<Fmt>) {
        let (res, f) = self.3.spec_into_response(fmt);
        match f {
            Some(f) => {
                let (res, f) = self.0.spec_response_part(res, f);
                match f {
                    Some(f) => {
                        let (res, f) = self.1.spec_response_part(res, f);
                        match f {
                            Some(f) => self.2.spec_response_part(res, f),
                            None => (res, None),
                        }
                    },
                    None => (res, None),
                }
            },
            None => (res, None),
        }
    }

    fn into_response(self, fmt: Fmt) -> (r: (Response, Option<Fmt>)) {
        let (p1, p2, p3, terminal) = self;
        let (res, f) = terminal.into_response(fmt);
        match f {
            Some(f) => {
                let (res, f) = p1.response_part(res, f);
                match f {
                    Some(f) => {
                        let (res, f) = p2.response_part(res, f);
                        match f {
                            Some(f) => p3.response_part(res, f),
                            None => (res, None),
                        }
                    },
                    None => (res, None),
                }
            },
            None => (res, None),
        }
    }
}

impl Formatter<InvalidParamEncoding> for DefaultFormatter {
    open spec fn spec_format_error(self, err: InvalidParamEncoding) -> ResponseView {
        spec_error_response(err.spec_message())
    }

    fn format_error(self, err: InvalidParamEncoding) -> (r: Response) {
        error_response(&err)
    }
}

impl<Fmt: Formatter<InvalidParamEncoding>> IntoResponse<Fmt> for InvalidParamEncoding {
    open spec fn spec_into_response(self, fmt: Fmt) -> (ResponseView, Option<Fmt>) {
        (fmt.spec_format_error(self), None)
    }

    fn into_response(self, fmt: Fmt) -> (r: (Response, Option<Fmt>)) {
        (fmt.format_error(self), None)
    }
}

impl<Fmt: Formatter<RouteError>> IntoResponse<Fmt> for RouteError {
    open spec fn spec_into_response(self, fmt: Fmt) -> (ResponseView, Option<Fmt>) {
        (fmt.spec_format_error(self), None)
    }

    fn into_response(self, fmt: Fmt) -> (r: (Response, Option<Fmt>)) {
        (fmt.format_error(self), None)
    }
}

/// A path with a final slash taken off, if it carries one.
pub open spec fn spec_strip_trailing_slash(path: Seq<char>) -> Seq<char> {
    if path.len() > 0 && path.last() == '/' {
        path.drop_last()
    } else {
        path
    }
}

/// The redirect target for a corrected path: only the path component is
/// rewritten, the query string is preserved verbatim.
pub open spec fn spec_location(path: Seq<char>, query: Option<String>) -> Seq<char> {
    match query {
        Some(q) => path + "?"@ + q@,
        None => path,
    }
}

/// A `308 Permanent Redirect` pointing at `loc` — method and body must be
/// preserved across the redirect, which rules the `301`/`302` family out.
/// A location that cannot stand in a header re-enters the formatter.
pub open spec fn spec_redirect(loc: Seq<char>) -> ResponseView {
    if valid_header_value(loc) {
        ResponseView {
            status: 308,
            headers: seq![("location"@, loc)],
            body: Seq::empty(),
        }
    } else {
        spec_error_response(InvalidHeader::Value.spec_message())
    }
}

/// How the default policy renders each routing failure: a miss is a bare
/// `404`; the two trailing-slash near-misses are `308` redirects to the
/// corrected path with the query preserved; a disallowed method is a `405`
/// carrying the advertised `Allow` value; a bad parameter encoding is a
/// bare `400`.
pub open spec fn spec_route_error_response(err: RouteError) -> ResponseView {
    match err.kind {
        RouteErrorKind::NotFound => ResponseView {
            status: 404,
            headers: Seq::empty(),
            body: Seq::empty(),
        },
        RouteErrorKind::ExtraTrailingSlash => spec_redirect(
            spec_location(spec_strip_trailing_slash(err.request.path@), err.request.query),
        ),
        RouteErrorKind::MissingTrailingSlash => spec_redirect(
            spec_location(err.request.path@ + "/"@, err.request.query),
        ),
        RouteErrorKind::MethodNotAllowed { allow_header } => if valid_header_value(
            allow_header@,
        ) {
            ResponseView {
                status: 405,
                headers: seq![("allow"@, allow_header@)],
                body: Seq::empty(),
            }
        } else {
            spec_error_response(InvalidHeader::Value.spec_message())
        },
        RouteErrorKind::Param(_) => ResponseView {
            status: 400,
            headers: Seq::empty(),
            body: Seq::empty(),
        },
    }
}

/// On either trailing-slash mismatch the default policy answers with a
/// `308` whose `location` header is the corrected path — the registered
/// pattern's own shape — with the query string preserved verbatim,
/// whenever that location can stand in a header.
pub proof fn lemma_redirect_rendering(err: RouteError)
    requires
        err.kind is ExtraTrailingSlash || err.kind is MissingTrailingSlash,
    ensures
        ({
            let corrected = if err.kind is ExtraTrailingSlash {
                spec_strip_trailing_slash(err.request.path@)
            } else {
                err.request.path@ + "/"@
            };
            let loc = spec_location(corrected, err.request.query);
            valid_header_value(loc) ==> spec_route_error_response(err).status == 308
                && spec_route_error_response(err).header("location"@) == Some(loc)
        }),
{
    let corrected = if err.kind is ExtraTrailingSlash {
        spec_strip_trailing_slash(err.request.path@)
    } else {
        err.request.path@ + "/"@
    };
    let loc = spec_location(corrected, err.request.query);
    if valid_header_value(loc) {
        let hs: Seq<(Seq<char>, Seq<char>)> = seq![("location"@, loc)];
        assert(hs.last() == ("location"@, loc));
        assert(last_header_value(hs, "location"@) == Some(loc));
    }
}

/// Takes a final slash off a path, if it carries one.
fn strip_trailing_slash(path: String) -> (r: String)
    ensures
        r@ == spec_strip_trailing_slash(path@),
{
    let n = path.as_str().unicode_len();
    if n > 0 && path.as_str().get_char(n - 1) == '/' {
        let stripped = path.as_str().substring_char(0, n - 1).to_owned();
        proof {
            assert(stripped@ =~= path@.drop_last());
        }
        stripped
    } else {
        path
    }
}

/// Builds the redirect for a corrected path, preserving the query.
fn redirect_response(path: String, query: Option<String>) -> (r: Response)
    ensures
        r@ == spec_redirect(spec_location(path@, query)),
{
    let ghost pv = path@;
    let mut loc = path;
    match &query {
        Some(q) => {
            loc.append("?");
            loc.append(q.as_str());
        },
        None => {},
    }
    proof {
        assert(loc@ == spec_location(pv, query));
    }
    if check_header_value(&loc) {
        let ghost lv = loc@;
        let mut headers: Vec<(String, String)> = Vec::new();
        headers.push(("location".to_owned(), loc));
        let r = Response { status: 308, headers, body: String::new() };
        proof {
            assert(r@ =~= ResponseView { status: 308, headers: seq![("location"@, lv)], body: Seq::empty() });
        }
        r
    } else {
        error_response(&InvalidHeader::Value)
    }
}

impl Formatter<RouteError> for DefaultFormatter {
    open spec fn spec_format_error(self, err: RouteError) -> ResponseView {
        spec_route_error_response(err)
    }

    fn format_error(self, err: RouteError) -> (r: Response) {
        let RouteError { request, kind } = err;
        match kind {
            RouteErrorKind::NotFound => {
                let r = Response { status: 404, headers: Vec::new(), body: String::new() };
                proof {
                    assert(r@ =~= ResponseView {
                        status: 404,
                        headers: Seq::empty(),
                        body: Seq::empty(),
                    });
                }
                r
            },
            RouteErrorKind::ExtraTrailingSlash => {
                let stripped = strip_trailing_slash(request.path);
                redirect_response(stripped, request.query)
            },
            RouteErrorKind::MissingTrailingSlash => {
                let mut path = request.path;
                path.append("/");
                redirect_response(path, request.query)
            },
            RouteErrorKind::MethodNotAllowed { allow_header } => {
                if check_header_value(&allow_header) {
                    let ghost av = allow_header@;
                    let mut headers: Vec<(String, String)> = Vec::new();
                    headers.push(("allow".to_owned(), allow_header));
                    let r = Response { status: 405, headers, body: String::new() };
                    proof {
                        assert(r@ =~= ResponseView {
                            status: 405,
                            headers: seq![("allow"@, av)],
                            body: Seq::empty(),
                        });
                    }
                    r
                } else {
                    error_response(&InvalidHeader::Value)
                }
            },
            RouteErrorKind::Param(_) => {
                let r = Response { status: 400, headers: Vec::new(), body: String::new() };
                proof {
                    assert(r@ =~= ResponseView {
                        status: 400,
                        headers: Seq::empty(),
                        body: Seq::empty(),
                    });
                }
                r
            },
        }
    }
}

} // verus!
