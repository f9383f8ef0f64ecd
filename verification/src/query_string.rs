//! The decoded parameters of one request's query string, with typed
//! read-on-demand accessors.

use vstd::prelude::*;
use crate::http_fail_result::HttpFailResult;
use crate::strings::lower_seq;
use crate::strings::str_eq;
use crate::strings::to_lower;
use crate::url_decoder::UrlDecodeError;
use crate::url_utils::lookup_pairs;
use crate::url_utils::pair_views;
use crate::url_utils::pairs_map;
use crate::url_utils::parse_qs;
use crate::url_utils::parse_query_string;

verus! {

/// The boolean reading of a parameter value: `"1"` or any casing of
/// `"true"` is true, every other value is false.
pub open spec fn bool_of(v: Seq<char>) -> bool {
    v == seq!['1'] || lower_seq(v) == seq!['t', 'r', 'u', 'e']
}

#[derive(Debug)]
pub struct QueryString {
    query_string: Vec<(String, String)>,
}

impl QueryString {
    /// The decoded parameter map this query string holds.
    pub closed spec fn params(&self) -> Map<Seq<char>, Seq<char>> {
        pairs_map(pair_views(self.query_string@))
    }

    pub fn new(src: &str) -> (r: Result<Self, UrlDecodeError>)
        ensures
            match r {
                Ok(qs) => parse_qs(src@) == Some(qs.params()),
                Err(_) => parse_qs(src@) is None,
            },
    {
        match parse_query_string(src) {
            Ok(pairs) => Ok(Self { query_string: pairs }),
            Err(e) => Err(e),
        }
    }

    pub fn get_optional_string_parameter(&self, name: &str) -> (r: Option<&String>)
        ensures
            match r {
                Some(v) => self.params().contains_key(name@) && v@ == self.params()[name@],
                None => !self.params().contains_key(name@),
            },
    {
        lookup_pairs(&self.query_string, name)
    }

    pub fn get_required_string_parameter(&self, name: &str) -> (r: Result<&String, HttpFailResult>)
        ensures
            match r {
                Ok(v) => self.params().contains_key(name@) && v@ == self.params()[name@],
                Err(e) => {
                    &&& !self.params().contains_key(name@)
                    &&& e.status_code == 400
                    &&& e.content_type is Text
                    &&& e.metric_it == true
                    &&& e.content@ == "Query parameter '"@ + name@ + "' is required"@
                },
            },
    {
        match self.get_optional_string_parameter(name) {
            Some(v) => Ok(v),
            None => Err(HttpFailResult::as_query_parameter_required(name)),
        }
    }

    pub fn get_bool_parameter(&self, name: &str, default_value: bool) -> (r: bool)
        ensures
            r == if self.params().contains_key(name@) {
                bool_of(self.params()[name@])
            } else {
                default_value
            },
    {
        match self.get_optional_string_parameter(name) {
            Some(value) => {
                let one = str_eq(value.as_str(), "1");
                proof {
                    reveal_strlit("1");
                    assert("1"@ =~= seq!['1']);
                }
                if one {
                    true
                } else {
                    let low = to_lower(value.as_str());
                    let tru = str_eq(low.as_str(), "true");
                    proof {
                        reveal_strlit("true");
                        assert("true"@ =~= seq!['t', 'r', 'u', 'e']);
                    }
                    tru
                }
            },
            None => default_value,
        }
    }

    pub fn get_optional_parameter<T: core::str::FromStr>(&self, name: &str) -> (r: Option<T>)
        ensures
            !self.params().contains_key(name@) ==> r is None,
    {
        match self.get_optional_string_parameter(name) {
            Some(value) => parse_str(value.as_str()),
            None => None,
        }
    }

    pub fn get_required_parameter<T: core::str::FromStr>(&self, name: &str) -> (r: Result<
        T,
        HttpFailResult,
    >)
        ensures
            r matches Ok(_) ==> self.params().contains_key(name@),
            r matches Err(e) ==> {
                &&& e.status_code == 400
                &&& e.content_type is Text
                &&& e.metric_it == true
                &&& e.content@ == "Query parameter '"@ + name@ + "' is required"@
            },
            !self.params().contains_key(name@) ==> r is Err,
    {
        let parsed: Option<T> = match self.get_optional_string_parameter(name) {
            Some(value) => parse_str(value.as_str()),
            None => None,
        };
        required_from_parse(parsed, name)
    }
}

/// Relies on `str::parse`: parses with `T`'s `FromStr` implementation,
/// `None` where that implementation rejects the string.
#[verifier::external_body]
fn parse_str<T: core::str::FromStr>(s: &str) -> Option<T> {
    s.parse::<T>().ok()
}

/// Turns the outcome of an optional parse into the required-parameter
/// result: a parsed value passes through, and a missing or unparsable
/// parameter becomes the 400-class failure naming the parameter.
pub fn required_from_parse<T>(parsed: Option<T>, name: &str) -> (r: Result<T, HttpFailResult>)
    ensures
        parsed matches Some(v) ==> r matches Ok(rv) && rv == v,
        parsed is None ==> (r matches Err(e) && {
            &&& e.status_code == 400
            &&& e.content_type is Text
            &&& e.metric_it == true
            &&& e.content@ == "Query parameter '"@ + name@ + "' is required"@
        }),
{
    match parsed {
        Some(v) => Ok(v),
        None => Err(HttpFailResult::as_query_parameter_required(name)),
    }
}

} // verus!
