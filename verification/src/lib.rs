//! A small, verified request-routing and dispatch core.
//!
//! The crate routes an incoming request to a registered handler by path and
//! method, extracts and percent-decodes path parameters, and converts handler
//! results and routing failures into wire responses. Path matching itself is
//! delegated to the `matchit` radix trie, consumed through a narrow trusted
//! boundary; everything layered on top of it — method dispatch with `Allow`
//! header maintenance, redirect and error rendering, the response-conversion
//! protocol — is specified and verified here.

pub mod json;
pub mod method;
pub mod mime;
pub mod request;
pub mod response;
pub mod route;
pub mod router;
pub mod trie;
