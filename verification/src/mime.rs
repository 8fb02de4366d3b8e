//! Media-type names used when the crate tags a response body.

use vstd::prelude::*;

verus! {

/// A media-type name, wrapped so that response construction can speak of it.
pub struct Mime<'s> {
    source: &'s str,
}

impl<'s> Mime<'s> {
    /// The wrapped media-type text.
    pub closed spec fn spec_str(&self) -> Seq<char> {
        self.source@
    }

    pub fn as_str(&self) -> (r: &str)
        ensures
            r@ == self.spec_str(),
    {
        self.source
    }

    /// The media-type text in the form a response header carries it.
    pub fn header(&self) -> (r: String)
        ensures
            r@ == self.spec_str(),
    {
        self.source.to_owned()
    }
}

pub fn text_plain() -> (r: Mime<'static>)
    ensures
        r.spec_str() == "text/plain"@,
{
    Mime { source: "text/plain" }
}

pub fn application_json() -> (r: Mime<'static>)
    ensures
        r.spec_str() == "application/json"@,
{
    Mime { source: "application/json" }
}

} // verus!
