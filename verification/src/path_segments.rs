//! A compiled route template and its matching and extraction walks
//! over a concrete request path.

use vstd::prelude::*;
use crate::path_segment::PathSegment;
use crate::path_segment::is_key_token;
use crate::path_segment::is_segment_of;
use crate::path_segment::key_name;
use crate::strings::lower_seq;
use crate::strings::path_tokens;
use crate::strings::split_path;
use crate::strings::str_eq;
use crate::strings::to_lower;
use crate::strings::views_of;

verus! {

/// What looking a key up in a route yields: the route has no such key,
/// the key has no token in this path, or the token's text.
pub enum GetPathValueResult {
    NoKeyInTheRoute,
    NoValue,
    Value(String),
}

/// Specification-level counterpart of `GetPathValueResult`.
pub enum PathValue {
    NoKey,
    NoVal,
    Val(Seq<char>),
}

impl GetPathValueResult {
    pub fn is_no_key(&self) -> (r: bool)
        ensures
            r == (self is NoKeyInTheRoute),
    {
        match self {
            GetPathValueResult::NoKeyInTheRoute => true,
            GetPathValueResult::NoValue => false,
            GetPathValueResult::Value(_) => false,
        }
    }

    pub fn is_no_value(&self) -> (r: bool)
        ensures
            r == (self is NoValue),
    {
        match self {
            GetPathValueResult::NoKeyInTheRoute => false,
            GetPathValueResult::NoValue => true,
            GetPathValueResult::Value(_) => false,
        }
    }

    pub fn unwrap(&self) -> (r: &str)
        requires
            self is Value,
        ensures
            self matches GetPathValueResult::Value(v) && r@ == v@,
    {
        match self {
            GetPathValueResult::NoKeyInTheRoute => unreached(),
            GetPathValueResult::NoValue => unreached(),
            GetPathValueResult::Value(value) => value.as_str(),
        }
    }
}

/// Every token from `i` to the end is a key token.
pub open spec fn trailing_keys_from(tt: Seq<Seq<char>>, i: int) -> bool {
    forall|j: int| i <= j < tt.len() ==> is_key_token(#[trigger] tt[j])
}

/// The number of key tokens among `tt`.
pub open spec fn num_keys(tt: Seq<Seq<char>>) -> nat
    decreases tt.len(),
{
    if tt.len() == 0 {
        0
    } else {
        num_keys(tt.drop_last()) + if is_key_token(tt.last()) {
            1nat
        } else {
            0nat
        }
    }
}

/// The matching walk from position `i`: a literal must equal the path
/// token case-insensitively, a non-trailing key accepts any token, a
/// trailing key ends the walk satisfied, and a path token beyond the
/// template's end fails.
pub open spec fn match_from(tt: Seq<Seq<char>>, pt: Seq<Seq<char>>, i: int) -> bool
    decreases pt.len() - i,
{
    if i >= pt.len() {
        true
    } else if i >= tt.len() {
        false
    } else if is_key_token(tt[i]) {
        if trailing_keys_from(tt, i) {
            true
        } else {
            match_from(tt, pt, i + 1)
        }
    } else {
        lower_seq(tt[i]) == lower_seq(pt[i]) && match_from(tt, pt, i + 1)
    }
}

/// The template compiled from `template` matches the request path
/// `path`.
pub open spec fn path_matches(template: Seq<char>, path: Seq<char>) -> bool {
    match_from(path_tokens(template), path_tokens(path), 0)
}

/// The extraction walk from position `i`: the first key token named
/// `key` yields the path token at its position.
pub open spec fn extract_from(tt: Seq<Seq<char>>, pt: Seq<Seq<char>>, key: Seq<char>, i: int) -> PathValue
    decreases pt.len() - i,
{
    if i >= pt.len() {
        PathValue::NoVal
    } else if i >= tt.len() {
        PathValue::NoKey
    } else if is_key_token(tt[i]) && key_name(tt[i]) == key {
        PathValue::Val(pt[i])
    } else {
        extract_from(tt, pt, key, i + 1)
    }
}

/// The result of looking `key` up in `template` against `path`.
pub open spec fn extract_value(template: Seq<char>, path: Seq<char>, key: Seq<char>) -> PathValue {
    if num_keys(path_tokens(template)) == 0 {
        PathValue::NoKey
    } else {
        extract_from(path_tokens(template), path_tokens(path), key, 0)
    }
}

/// Every segment from `i` to the end is a key segment.
pub open spec fn seg_trailing(segs: Seq<PathSegment>, i: int) -> bool {
    forall|j: int| i <= j < segs.len() ==> (#[trigger] segs[j]) is Key
}

/// How `mark_last` rewrites the segment at `i`: literals are kept, and
/// a key's mark becomes true when only keys follow it.
pub open spec fn mark_rel(prev: Seq<PathSegment>, cur: PathSegment, i: int) -> bool {
    match prev[i] {
        PathSegment::Path(_) => cur == prev[i],
        PathSegment::Key { path_key, last } => cur == (PathSegment::Key {
            path_key,
            last: last || seg_trailing(prev, i),
        }),
    }
}

/// Marks the trailing run of key segments as last, scanning backward
/// until a literal segment or the front of the list.
pub fn mark_last(segments: &mut Vec<PathSegment>)
    ensures
        final(segments)@.len() == old(segments)@.len(),
        forall|i: int|
            0 <= i < old(segments)@.len() ==> mark_rel(
                old(segments)@,
                #[trigger] final(segments)@[i],
                i,
            ),
{
    let ghost prev = segments@;
    let n: usize = segments.len();
    let mut b: usize = n;
    while b > 0 && segments[b - 1].is_key()
        invariant
            segments@ == prev,
            n == prev.len(),
            b <= n,
            forall|j: int| b <= j < n ==> (#[trigger] prev[j]) is Key,
        decreases b,
    {
        b = b - 1;
    }
    let mut j: usize = b;
    while j < n
        invariant
            b <= j <= n,
            n == prev.len(),
            segments@.len() == n,
            b == 0 || !(prev[b - 1] is Key),
            forall|k: int| b <= k < n ==> (#[trigger] prev[k]) is Key,
            forall|k: int|
                0 <= k < n && !(b <= k < j) ==> #[trigger] segments@[k] == prev[k],
            forall|k: int|
                b <= k < j ==> mark_rel(prev, #[trigger] segments@[k], k),
        decreases n - j,
    {
        let mut name: Option<String> = None;
        match &segments[j] {
            PathSegment::Key { path_key, last: _ } => {
                name = Some(path_key.clone());
            },
            PathSegment::Path(_) => {
                proof {
                    assert(false);
                }
            },
        }
        match name {
            Some(nm) => {
                segments[j] = PathSegment::Key { path_key: nm, last: true };
            },
            None => {
                proof {
                    assert(false);
                }
            },
        }
        j = j + 1;
    }
}

/// A route template compiled once at registration: the template text,
/// its segments, and how many of them are keys.
#[derive(Debug, Clone)]
pub struct PathSegments {
    pub path: String,
    pub segments: Vec<PathSegment>,
    pub keys_amount: usize,
}

impl PathSegments {
    /// The segments correspond one to one to the template's tokens,
    /// with the trailing run of keys marked last.
    pub open spec fn wf(&self) -> bool {
        let tt = path_tokens(self.path@);
        &&& self.segments@.len() == tt.len()
        &&& forall|i: int|
            0 <= i < tt.len() ==> is_segment_of(
                #[trigger] self.segments@[i],
                tt[i],
                trailing_keys_from(tt, i),
            )
        &&& self.keys_amount == num_keys(tt)
    }

    pub fn new(path: &str) -> (r: Self)
        ensures
            r.wf(),
            r.path@ == path@,
    {
        let ghost tt = path_tokens(path@);
        let tokens = split_path(path);
        let mut segments: Vec<PathSegment> = Vec::new();
        let mut keys_amount: usize = 0;
        let mut idx: usize = 0;
        proof {
            assert(tt.take(0) =~= Seq::<Seq<char>>::empty());
        }
        while idx < tokens.len()
            invariant
                views_of(tokens@) == tt,
                idx <= tokens.len(),
                tokens.len() == tt.len(),
                segments@.len() == idx,
                forall|i: int|
                    0 <= i < idx ==> is_segment_of(#[trigger] segments@[i], tt[i], false),
                keys_amount == num_keys(tt.take(idx as int)),
                keys_amount <= idx,
            decreases tokens.len() - idx,
        {
            proof {
                assert(tt[idx as int] == tokens@[idx as int]@);
            }
            let seg = PathSegment::new(tokens[idx].as_str());
            if seg.is_key() {
                keys_amount = keys_amount + 1;
            }
            segments.push(seg);
            proof {
                assert(tt.take(idx as int + 1).drop_last() =~= tt.take(idx as int));
                assert(tt.take(idx as int + 1).last() == tt[idx as int]);
            }
            idx = idx + 1;
        }
        proof {
            assert(tt.take(tt.len() as int) =~= tt);
        }
        let ghost unmarked = segments@;
        mark_last(&mut segments);
        proof {
            assert forall|i: int|
                0 <= i < tt.len() implies is_segment_of(
                #[trigger] segments@[i],
                tt[i],
                trailing_keys_from(tt, i),
            ) by {
                assert(mark_rel(unmarked, segments@[i], i));
                if is_key_token(tt[i]) {
                    if seg_trailing(unmarked, i) {
                        assert forall|j: int| i <= j < tt.len() implies is_key_token(
                            #[trigger] tt[j],
                        ) by {
                            assert(unmarked[j] is Key);
                            assert(is_segment_of(unmarked[j], tt[j], false));
                        }
                        assert(trailing_keys_from(tt, i));
                    }
                    if trailing_keys_from(tt, i) {
                        assert forall|j: int| i <= j < unmarked.len() implies (
                        #[trigger] unmarked[j]) is Key by {
                            assert(is_key_token(tt[j]));
                            assert(is_segment_of(unmarked[j], tt[j], false));
                        }
                        assert(seg_trailing(unmarked, i));
                    }
                }
            }
        }
        Self { segments, keys_amount, path: path.to_owned() }
    }

    pub fn is_my_path(&self, path: &str) -> (r: bool)
        requires
            self.wf(),
        ensures
            r == path_matches(self.path@, path@),
    {
        let ghost tt = path_tokens(self.path@);
        let ghost pt = path_tokens(path@);
        let tokens = split_path(path);
        let mut index: usize = 0;
        while index < tokens.len()
            invariant
                self.wf(),
                tt == path_tokens(self.path@),
                pt == path_tokens(path@),
                views_of(tokens@) == pt,
                tokens.len() == pt.len(),
                index <= tokens.len(),
                match_from(tt, pt, 0) == match_from(tt, pt, index as int),
            decreases tokens.len() - index,
        {
            if index >= self.segments.len() {
                return false;
            }
            proof {
                assert(pt[index as int] == tokens@[index as int]@);
                assert(is_segment_of(self.segments@[index as int], tt[index as int],
                    trailing_keys_from(tt, index as int)));
            }
            match &self.segments[index] {
                PathSegment::Path(lit) => {
                    let low = to_lower(tokens[index].as_str());
                    if !str_eq(lit.as_str(), low.as_str()) {
                        return false;
                    }
                },
                PathSegment::Key { path_key: _, last } => {
                    if *last {
                        return true;
                    }
                },
            }
            index = index + 1;
        }
        true
    }

    pub fn get_value(&self, path: &str, key: &str) -> (r: GetPathValueResult)
        requires
            self.wf(),
        ensures
            ({
                let v = extract_value(self.path@, path@, key@);
                match r {
                    GetPathValueResult::NoKeyInTheRoute => v is NoKey,
                    GetPathValueResult::NoValue => v is NoVal,
                    GetPathValueResult::Value(s) => v == PathValue::Val(s@),
                }
            }),
    {
        let ghost tt = path_tokens(self.path@);
        let ghost pt = path_tokens(path@);
        if self.keys_amount == 0 {
            return GetPathValueResult::NoKeyInTheRoute;
        }
        let tokens = split_path(path);
        let mut index: usize = 0;
        while index < tokens.len()
            invariant
                self.wf(),
                tt == path_tokens(self.path@),
                pt == path_tokens(path@),
                views_of(tokens@) == pt,
                tokens.len() == pt.len(),
                index <= tokens.len(),
                num_keys(tt) > 0,
                extract_from(tt, pt, key@, 0) == extract_from(tt, pt, key@, index as int),
            decreases tokens.len() - index,
        {
            if index >= self.segments.len() {
                return GetPathValueResult::NoKeyInTheRoute;
            }
            proof {
                assert(pt[index as int] == tokens@[index as int]@);
                assert(is_segment_of(self.segments@[index as int], tt[index as int],
                    trailing_keys_from(tt, index as int)));
            }
            match &self.segments[index] {
                PathSegment::Key { path_key, last: _ } => {
                    if str_eq(path_key.as_str(), key) {
                        return GetPathValueResult::Value(tokens[index].clone());
                    }
                },
                PathSegment::Path(_) => {},
            }
            index = index + 1;
        }
        GetPathValueResult::NoValue
    }
}

/// A sequence of tokens lowered elementwise.
pub open spec fn lower_tokens(ts: Seq<Seq<char>>) -> Seq<Seq<char>> {
    Seq::new(ts.len(), |i: int| lower_seq(ts[i]))
}

proof fn lemma_no_keys_elementwise(tt: Seq<Seq<char>>)
    requires
        num_keys(tt) == 0,
    ensures
        forall|j: int| 0 <= j < tt.len() ==> !is_key_token(#[trigger] tt[j]),
    decreases tt.len(),
{
    if tt.len() > 0 {
        lemma_no_keys_elementwise(tt.drop_last());
        assert forall|j: int| 0 <= j < tt.len() implies !is_key_token(#[trigger] tt[j]) by {
            if j < tt.len() - 1 {
                assert(tt.drop_last()[j] == tt[j]);
            } else {
                assert(tt[j] == tt.last());
            }
        }
    }
}

proof fn lemma_key_num_keys_pos(tt: Seq<Seq<char>>, i: int)
    requires
        0 <= i < tt.len(),
        is_key_token(tt[i]),
    ensures
        num_keys(tt) > 0,
    decreases tt.len(),
{
    if i < tt.len() - 1 {
        assert(tt.drop_last()[i] == tt[i]);
        lemma_key_num_keys_pos(tt.drop_last(), i);
    }
}

proof fn lemma_match_literals_from(tt: Seq<Seq<char>>, pt: Seq<Seq<char>>, i: int)
    requires
        forall|j: int| 0 <= j < tt.len() ==> !is_key_token(#[trigger] tt[j]),
        tt.len() <= pt.len(),
        0 <= i <= tt.len(),
    ensures
        match_from(tt, pt, i) <==> (tt.len() == pt.len() && forall|j: int|
            i <= j < tt.len() ==> lower_seq(#[trigger] tt[j]) == lower_seq(pt[j])),
    decreases tt.len() - i,
{
    if i < tt.len() {
        lemma_match_literals_from(tt, pt, i + 1);
    }
}

/// With no key segments in the template, and a request path of at
/// least as many tokens, matching is exact case-insensitive comparison
/// of the slash-normalized tokens.
pub proof fn lemma_matches_all_literals(template: Seq<char>, path: Seq<char>)
    requires
        num_keys(path_tokens(template)) == 0,
        path_tokens(template).len() <= path_tokens(path).len(),
    ensures
        path_matches(template, path) <==> lower_tokens(path_tokens(template)) == lower_tokens(
            path_tokens(path),
        ),
{
    let tt = path_tokens(template);
    let pt = path_tokens(path);
    lemma_no_keys_elementwise(tt);
    lemma_match_literals_from(tt, pt, 0);
    if path_matches(template, path) {
        assert(lower_tokens(tt) =~= lower_tokens(pt));
    }
    if lower_tokens(tt) == lower_tokens(pt) {
        assert(lower_tokens(tt).len() == tt.len());
        assert(lower_tokens(pt).len() == pt.len());
        assert(tt.len() == pt.len());
        assert forall|j: int| 0 <= j < tt.len() implies lower_seq(#[trigger] tt[j]) == lower_seq(
            pt[j],
        ) by {
            assert(lower_tokens(tt)[j] == lower_tokens(pt)[j]);
        }
    }
}

proof fn lemma_extract_skip(tt: Seq<Seq<char>>, pt: Seq<Seq<char>>, key: Seq<char>, k: int, i: int)
    requires
        0 <= k <= i,
        i < pt.len(),
        i < tt.len(),
        forall|j: int|
            k <= j < i ==> !(is_key_token(#[trigger] tt[j]) && key_name(tt[j]) == key),
    ensures
        extract_from(tt, pt, key, k) == extract_from(tt, pt, key, i),
    decreases i - k,
{
    if k < i {
        lemma_extract_skip(tt, pt, key, k + 1, i);
    }
}

/// For a request with a matching template, extraction of a declared
/// key returns exactly the path token at the position the key holds in
/// the template.
pub proof fn lemma_extract_at_key(template: Seq<char>, path: Seq<char>, key: Seq<char>, i: int)
    requires
        path_matches(template, path),
        0 <= i < path_tokens(template).len(),
        is_key_token(path_tokens(template)[i]),
        key_name(path_tokens(template)[i]) == key,
        forall|j: int|
            0 <= j < i ==> !(is_key_token(#[trigger] path_tokens(template)[j]) && key_name(
                path_tokens(template)[j],
            ) == key),
        i < path_tokens(path).len(),
    ensures
        extract_value(template, path, key) == PathValue::Val(path_tokens(path)[i]),
{
    let tt = path_tokens(template);
    let pt = path_tokens(path);
    lemma_key_num_keys_pos(tt, i);
    lemma_extract_skip(tt, pt, key, 0, i);
}

proof fn lemma_trailing_match_from(tt: Seq<Seq<char>>, pt: Seq<Seq<char>>, i: int)
    requires
        tt.len() == pt.len() + 1,
        forall|j: int|
            0 <= j < pt.len() && !is_key_token(#[trigger] tt[j]) ==> lower_seq(tt[j])
                == lower_seq(pt[j]),
        0 <= i <= pt.len(),
    ensures
        match_from(tt, pt, i),
    decreases pt.len() - i,
{
    if i < pt.len() {
        lemma_trailing_match_from(tt, pt, i + 1);
    }
}

proof fn lemma_trailing_noval_from(
    tt: Seq<Seq<char>>,
    pt: Seq<Seq<char>>,
    key: Seq<char>,
    i: int,
)
    requires
        tt.len() == pt.len() + 1,
        forall|j: int|
            0 <= j < tt.len() - 1 ==> !(is_key_token(#[trigger] tt[j]) && key_name(tt[j])
                == key),
        0 <= i <= pt.len(),
    ensures
        extract_from(tt, pt, key, i) == PathValue::NoVal,
    decreases pt.len() - i,
{
    if i < pt.len() {
        lemma_trailing_noval_from(tt, pt, key, i + 1);
    }
}

/// A trailing key segment makes matching succeed even when the request
/// path stops one token short of the template; extraction of that key
/// then reports that no value was provided.
pub proof fn lemma_trailing_key_optional(template: Seq<char>, path: Seq<char>)
    requires
        path_tokens(template).len() == path_tokens(path).len() + 1,
        is_key_token(path_tokens(template).last()),
        forall|j: int|
            0 <= j < path_tokens(path).len() && !is_key_token(
                #[trigger] path_tokens(template)[j],
            ) ==> lower_seq(path_tokens(template)[j]) == lower_seq(path_tokens(path)[j]),
        forall|j: int|
            0 <= j < path_tokens(template).len() - 1 ==> !(is_key_token(
                #[trigger] path_tokens(template)[j],
            ) && key_name(path_tokens(template)[j]) == key_name(path_tokens(template).last())),
    ensures
        path_matches(template, path),
        extract_value(template, path, key_name(path_tokens(template).last()))
            == PathValue::NoVal,
{
    let tt = path_tokens(template);
    let pt = path_tokens(path);
    let key = key_name(tt.last());
    lemma_key_num_keys_pos(tt, tt.len() - 1);
    lemma_trailing_match_from(tt, pt, 0);
    lemma_trailing_noval_from(tt, pt, key, 0);
}

} // verus!
