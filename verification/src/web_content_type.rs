//! The content types the core decides between; serialization of the
//! header itself belongs to the transport layer.

use vstd::prelude::*;

verus! {

#[derive(Debug, Clone, Copy, PartialEq, Eq, Structural)]
pub enum WebContentType {
    Json,
    Text,
}

impl WebContentType {
    /// The header value naming this content type.
    pub fn as_str(&self) -> (r: &'static str)
        ensures
            self is Json ==> r@ == "application/json"@,
            self is Text ==> r@ == "text/plain; charset=utf-8"@,
    {
        match self {
            WebContentType::Json => "application/json",
            WebContentType::Text => "text/plain; charset=utf-8",
        }
    }
}

} // verus!
