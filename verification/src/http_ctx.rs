//! The in-flight state of one request, modeled as the plain values the
//! core reads: the path, the query component, the header pairs, the
//! peer address, and the matched route once a middleware resolves one.

use vstd::prelude::*;
use crate::http_fail_result::HttpFailResult;
use crate::path_segments::PathSegments;
use crate::path_segments::PathValue;
use crate::path_segments::GetPathValueResult;
use crate::path_segments::extract_value;
use crate::query_string::QueryString;
use crate::request_ip::RequestIp;
use crate::strings::lower_seq;
use crate::strings::split_seq;
use crate::strings::split_str;
use crate::strings::str_eq;
use crate::strings::to_lower;
use crate::strings::trim_spec;
use crate::strings::trim_str;
use crate::strings::views_of;
use crate::url_utils::parse_qs;

verus! {

/// The first header named `key`, names compared lowercased, walking
/// the pairs in order as the transport's header map does.
pub open spec fn first_header(pairs: Seq<(String, String)>, key: Seq<char>) -> Option<Seq<char>>
    decreases pairs.len(),
{
    if pairs.len() == 0 {
        None
    } else if lower_seq(pairs[0].0@) == key {
        Some(pairs[0].1@)
    } else {
        first_header(pairs.drop_first(), key)
    }
}

/// Finds the first header named `name`, comparing names
/// case-insensitively.
pub fn lookup_header<'a>(pairs: &'a Vec<(String, String)>, name: &str) -> (r: Option<&'a String>)
    ensures
        match r {
            Some(v) => first_header(pairs@, lower_seq(name@)) == Some(v@),
            None => first_header(pairs@, lower_seq(name@)) is None,
        },
{
    let low_name = to_lower(name);
    let mut i: usize = 0;
    proof {
        assert(pairs@.skip(0) =~= pairs@);
    }
    while i < pairs.len()
        invariant
            i <= pairs@.len(),
            low_name@ == lower_seq(name@),
            first_header(pairs@, lower_seq(name@)) == first_header(
                pairs@.skip(i as int),
                lower_seq(name@),
            ),
        decreases pairs@.len() - i,
    {
        proof {
            assert(pairs@.skip(i as int)[0] == pairs@[i as int]);
            assert(pairs@.skip(i as int).drop_first() =~= pairs@.skip(i as int + 1));
        }
        let low_key = to_lower(pairs[i].0.as_str());
        if str_eq(low_key.as_str(), low_name.as_str()) {
            return Some(&pairs[i].1);
        }
        i = i + 1;
    }
    proof {
        assert(pairs@.skip(pairs@.len() as int) =~= Seq::<(String, String)>::empty());
    }
    None
}

/// The forwarded addresses in a header value: split on commas, each
/// entry trimmed.
pub open spec fn forwarded_ips_of(v: Seq<char>) -> Seq<Seq<char>> {
    Seq::new(split_seq(v, ',').len(), |i: int| trim_spec(split_seq(v, ',')[i]))
}

pub struct HttpContext {
    pub path: String,
    pub path_lower_case: String,
    pub addr: String,
    pub query: Option<String>,
    pub method: String,
    pub scheme: Option<String>,
    pub headers: Vec<(String, String)>,
    pub route: Option<PathSegments>,
}

impl HttpContext {
    /// The matched route, if set, was compiled by `PathSegments::new`.
    pub open spec fn wf(&self) -> bool {
        &&& self.path_lower_case@ == lower_seq(self.path@)
        &&& (self.route matches Some(rt) ==> rt.wf())
    }

    pub fn new(
        path: String,
        query: Option<String>,
        method: String,
        scheme: Option<String>,
        headers: Vec<(String, String)>,
        addr: String,
    ) -> (r: Self)
        ensures
            r.wf(),
            r.path == path,
            r.path_lower_case@ == lower_seq(path@),
            r.query == query,
            r.method == method,
            r.scheme == scheme,
            r.headers == headers,
            r.addr == addr,
            r.route is None,
    {
        let path_lower_case = to_lower(path.as_str());
        Self { path, path_lower_case, addr, query, method, scheme, headers, route: None }
    }

    pub fn get_path(&self) -> (r: &str)
        ensures
            r@ == self.path@,
    {
        self.path.as_str()
    }

    pub fn get_path_lower_case(&self) -> (r: &str)
        ensures
            r@ == self.path_lower_case@,
    {
        self.path_lower_case.as_str()
    }

    pub fn get_value_from_path(&self, key: &str) -> (r: Result<String, HttpFailResult>)
        requires
            self.wf(),
        ensures
            self.route is None ==> (r matches Err(e) && e.status_code == 403 && e.content@
                == "Path ["@ + self.path@ + "] does not has keys in it"@),
            self.route matches Some(rt) ==> match r {
                Ok(s) => extract_value(rt.path@, self.path@, key@) == PathValue::Val(s@),
                Err(e) => {
                    &&& e.status_code == 403
                    &&& !(extract_value(rt.path@, self.path@, key@) is Val)
                    &&& (extract_value(rt.path@, self.path@, key@) is NoKey ==> e.content@
                        == "Route ["@ + rt.path@ + "] does not have key["@ + key@ + "]"@)
                    &&& (extract_value(rt.path@, self.path@, key@) is NoVal ==> e.content@
                        == "Route ["@ + rt.path@ + "] does not have value for the path ["@
                        + self.path@ + "] with the key ["@ + key@ + "]"@)
                },
            },
    {
        match &self.route {
            None => Err(
                HttpFailResult::as_forbidden(
                    Some(
                        String::from_str("Path [").concat(self.path.as_str()).concat(
                            "] does not has keys in it",
                        ),
                    ),
                ),
            ),
            Some(route) => match route.get_value(self.path.as_str(), key) {
                GetPathValueResult::Value(value) => Ok(value),
                GetPathValueResult::NoKeyInTheRoute => Err(
                    HttpFailResult::as_forbidden(
                        Some(
                            String::from_str("Route [").concat(route.path.as_str()).concat(
                                "] does not have key[",
                            ).concat(key).concat("]"),
                        ),
                    ),
                ),
                GetPathValueResult::NoValue => Err(
                    HttpFailResult::as_forbidden(
                        Some(
                            String::from_str("Route [").concat(route.path.as_str()).concat(
                                "] does not have value for the path [",
                            ).concat(self.path.as_str()).concat("] with the key [").concat(
                                key,
                            ).concat("]"),
                        ),
                    ),
                ),
            },
        }
    }

    pub fn get_value_from_path_optional(&self, key: &str) -> (r: Result<
        Option<String>,
        HttpFailResult,
    >)
        requires
            self.wf(),
        ensures
            self.route is None ==> (r matches Err(e) && e.status_code == 403),
            self.route matches Some(rt) ==> match r {
                Ok(Some(s)) => extract_value(rt.path@, self.path@, key@) == PathValue::Val(s@),
                Ok(None) => extract_value(rt.path@, self.path@, key@) is NoVal,
                Err(e) => e.status_code == 403 && extract_value(rt.path@, self.path@, key@)
                    is NoKey,
            },
    {
        match &self.route {
            None => Err(
                HttpFailResult::as_forbidden(
                    Some(
                        String::from_str("Path [").concat(self.path.as_str()).concat(
                            "] does not has keys in it",
                        ),
                    ),
                ),
            ),
            Some(route) => match route.get_value(self.path.as_str(), key) {
                GetPathValueResult::Value(value) => Ok(Some(value)),
                GetPathValueResult::NoValue => Ok(None),
                GetPathValueResult::NoKeyInTheRoute => Err(
                    HttpFailResult::as_forbidden(
                        Some(
                            String::from_str("Route [").concat(route.path.as_str()).concat(
                                "] does not have key[",
                            ).concat(key).concat("]"),
                        ),
                    ),
                ),
            },
        }
    }

    pub fn get_ip(&self) -> (r: RequestIp)
        ensures
            match first_header(self.headers@, lower_seq("X-Forwarded-For"@)) {
                Some(v) => r matches RequestIp::Forwarded(ips) && views_of(ips@)
                    == forwarded_ips_of(v),
                None => r matches RequestIp::Result(ip) && ip@ == self.addr@,
            },
    {
        match lookup_header(&self.headers, "X-Forwarded-For") {
            Some(value) => {
                let parts = split_str(value.as_str(), ',');
                let ghost raw = split_seq(value@, ',');
                let mut ips: Vec<String> = Vec::new();
                let mut i: usize = 0;
                while i < parts.len()
                    invariant
                        views_of(parts@) == raw,
                        parts@.len() == raw.len(),
                        i <= parts@.len(),
                        ips@.len() == i,
                        forall|j: int| 0 <= j < i ==> ips@[j]@ == trim_spec(raw[j]),
                    decreases parts@.len() - i,
                {
                    proof {
                        assert(raw[i as int] == parts@[i as int]@);
                    }
                    ips.push(trim_str(parts[i].as_str()));
                    i = i + 1;
                }
                proof {
                    assert(views_of(ips@) =~= forwarded_ips_of(value@));
                }
                RequestIp::Forwarded(ips)
            },
            None => RequestIp::Result(self.addr.clone()),
        }
    }

    pub fn get_required_header(&self, header_name: &str) -> (r: Result<&String, HttpFailResult>)
        ensures
            match r {
                Ok(v) => first_header(self.headers@, lower_seq(header_name@)) == Some(v@),
                Err(e) => {
                    &&& first_header(self.headers@, lower_seq(header_name@)) is None
                    &&& e.status_code == 400
                    &&& e.content@ == "Query parameter '"@ + ("Header: "@ + header_name@)
                        + "' is required"@
                },
            },
    {
        match lookup_header(&self.headers, header_name) {
            Some(value) => Ok(value),
            None => Err(
                HttpFailResult::as_header_parameter_required(
                    String::from_str("Header: ").concat(header_name).as_str(),
                ),
            ),
        }
    }

    pub fn get_method(&self) -> (r: &str)
        ensures
            r@ == self.method@,
    {
        self.method.as_str()
    }

    pub fn get_query_string(&self) -> (r: Result<QueryString, HttpFailResult>)
        ensures
            self.query is None ==> (r matches Err(e) && e.status_code == 403 && e.content@
                == "No query string found"@),
            self.query matches Some(q) ==> match r {
                Ok(qs) => parse_qs(q@) == Some(qs.params()),
                Err(e) => parse_qs(q@) is None && e.status_code == 501,
            },
    {
        match &self.query {
            Some(query) => match QueryString::new(query.as_str()) {
                Ok(qs) => Ok(qs),
                Err(e) => Err(HttpFailResult::from_decode_error(e)),
            },
            None => Err(
                HttpFailResult::as_forbidden(Some(String::from_str("No query string found"))),
            ),
        }
    }

    pub fn get_host(&self) -> (r: &String)
        requires
            first_header(self.headers@, lower_seq("host"@)) is Some,
        ensures
            Some(r@) == first_header(self.headers@, lower_seq("host"@)),
    {
        match lookup_header(&self.headers, "host") {
            Some(value) => value,
            None => unreached(),
        }
    }

    pub fn get_scheme(&self) -> (r: String)
        ensures
            match first_header(self.headers@, lower_seq("X-Forwarded-Proto"@)) {
                Some(v) => r@ == v,
                None => match self.scheme {
                    Some(s) => r@ == s@,
                    None => r@ == "http"@,
                },
            },
    {
        match lookup_header(&self.headers, "X-Forwarded-Proto") {
            Some(value) => value.clone(),
            None => match &self.scheme {
                Some(scheme) => scheme.clone(),
                None => String::from_str("http"),
            },
        }
    }
}

} // verus!
