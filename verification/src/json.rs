//! JSON response support.
//!
//! `Json` wraps a value meant to be sent as a JSON body. Serialisation is a
//! capability of the embedding (it depends on the wrapped type's own
//! serialiser), so the verified part is the step after it: `json_reply`
//! takes the serialiser's outcome and produces the response — a JSON-typed
//! `200` on success, the default error rendering on failure — for every
//! possible outcome.

use vstd::prelude::*;

use crate::mime;
use crate::response::impls::spec_error_response;
use crate::response::{ErrorText, Response, ResponseView};

verus! {

/// A value to be serialised as a JSON response body.
#[derive(PartialEq, Eq, Clone, Copy, Debug)]
pub struct Json<T>(pub T);

/// The response carrying a serialised JSON body: `200` tagged
/// `application/json`.
pub open spec fn spec_json_content_response(content: Seq<char>) -> ResponseView {
    ResponseView {
        status: 200,
        headers: seq![("content-type"@, "application/json"@)],
        body: content,
    }
}

/// Turns a serialiser's outcome into the response: the serialised text as a
/// JSON body, or the serialiser's error text rendered the way the default
/// policy renders every error.
pub fn json_reply(serialized: Result<String, String>) -> (r: Response)
    ensures
        match serialized {
            Ok(content) => r@ == spec_json_content_response(content@),
            Err(message) => r@ == spec_error_response(message@),
        },
{
    match serialized {
        Ok(content) => {
            let ghost cv = content@;
            let mut headers: Vec<(String, String)> = Vec::new();
            headers.push(("content-type".to_owned(), mime::application_json().header()));
            let r = Response { status: 200, headers, body: content };
            proof {
                assert(r@ =~= spec_json_content_response(cv));
            }
            r
        },
        Err(message) => crate::response::impls::error_response(&ErrorText(message)),
    }
}

} // verus!
