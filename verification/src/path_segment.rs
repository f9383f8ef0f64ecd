//! One compiled segment of a route template: a literal token stored
//! lowercase, or a `{name}` key capturing the path token at its
//! position.

use vstd::prelude::*;
use crate::strings::lower_seq;
use crate::strings::to_lower;

verus! {

#[derive(Debug, Clone)]
pub enum PathSegment {
    Path(String),
    Key { path_key: String, last: bool },
}

/// A template token is a key when it is at least three characters long
/// and wrapped in `{` and `}`.
pub open spec fn is_key_token(t: Seq<char>) -> bool {
    t.len() >= 3 && t[0] == '{' && t[t.len() - 1] == '}'
}

/// The name between the braces of a key token.
pub open spec fn key_name(t: Seq<char>) -> Seq<char> {
    t.subrange(1, t.len() - 1)
}

/// `seg` is the segment compiled from the template token `t`, with
/// `last` as its trailing mark.
pub open spec fn is_segment_of(seg: PathSegment, t: Seq<char>, last: bool) -> bool {
    if is_key_token(t) {
        seg matches PathSegment::Key { path_key, last: l } && path_key@ == key_name(t) && l
            == last
    } else {
        seg matches PathSegment::Path(p) && p@ == lower_seq(t)
    }
}

impl PathSegment {
    pub fn new(path_segment: &str) -> (r: Self)
        ensures
            is_segment_of(r, path_segment@, false),
    {
        let n: usize = path_segment.unicode_len();
        if n < 3 {
            return PathSegment::Path(to_lower(path_segment));
        }
        if path_segment.get_char(0) == '{' && path_segment.get_char(n - 1) == '}' {
            let name: &str = path_segment.substring_char(1, n - 1);
            return PathSegment::Key { path_key: name.to_owned(), last: false };
        }
        PathSegment::Path(to_lower(path_segment))
    }

    pub fn is_key(&self) -> (r: bool)
        ensures
            r == (self is Key),
    {
        match self {
            PathSegment::Path(_) => false,
            PathSegment::Key { path_key: _, last: _ } => true,
        }
    }
}

} // verus!
