//! A failed HTTP outcome: the status code, content type and body text
//! the dispatcher hands to the transport layer.

use vstd::prelude::*;
use crate::url_decoder::UrlDecodeError;
use crate::web_content_type::WebContentType;

verus! {

#[derive(Debug)]
pub struct HttpFailResult {
    pub content_type: WebContentType,
    pub status_code: u16,
    pub content: String,
    pub metric_it: bool,
}

impl HttpFailResult {
    pub fn as_query_parameter_required(param_name: &str) -> (r: Self)
        ensures
            r.content_type is Text,
            r.status_code == 400,
            r.content@ == "Query parameter '"@ + param_name@ + "' is required"@,
            r.metric_it == true,
    {
        Self {
            content_type: WebContentType::Text,
            content: String::from_str("Query parameter '").concat(param_name).concat(
                "' is required",
            ),
            status_code: 400,
            metric_it: true,
        }
    }

    pub fn as_header_parameter_required(param_name: &str) -> (r: Self)
        ensures
            r.content_type is Text,
            r.status_code == 400,
            r.content@ == "Query parameter '"@ + param_name@ + "' is required"@,
            r.metric_it == true,
    {
        Self {
            content_type: WebContentType::Text,
            content: String::from_str("Query parameter '").concat(param_name).concat(
                "' is required",
            ),
            status_code: 400,
            metric_it: true,
        }
    }

    pub fn as_path_parameter_required(param_name: &str) -> (r: Self)
        ensures
            r.content_type is Text,
            r.status_code == 400,
            r.content@ == "Path parameter '"@ + param_name@ + "' is required"@,
            r.metric_it == true,
    {
        Self {
            content_type: WebContentType::Text,
            content: String::from_str("Path parameter '").concat(param_name).concat(
                "' is required",
            ),
            status_code: 400,
            metric_it: true,
        }
    }

    pub fn as_not_found(text: String, metric_it: bool) -> (r: Self)
        ensures
            r.content_type is Text,
            r.status_code == 404,
            r.content@ == text@,
            r.metric_it == metric_it,
    {
        Self { content_type: WebContentType::Text, content: text, status_code: 404, metric_it }
    }

    pub fn as_unauthorized(text: Option<String>) -> (r: Self)
        ensures
            r.content_type is Text,
            r.status_code == 401,
            r.metric_it == true,
            match text {
                Some(t) => r.content@ == "Unauthorized request: "@ + t@,
                None => r.content@ == "Unauthorized request"@,
            },
    {
        Self {
            content_type: WebContentType::Text,
            content: match text {
                Some(t) => String::from_str("Unauthorized request: ").concat(t.as_str()),
                None => String::from_str("Unauthorized request"),
            },
            status_code: 401,
            metric_it: true,
        }
    }

    pub fn as_forbidden(text: Option<String>) -> (r: Self)
        ensures
            r.content_type is Text,
            r.status_code == 403,
            r.metric_it == true,
            match text {
                Some(t) => r.content@ == t@,
                None => r.content@ == "Forbidden"@,
            },
    {
        Self {
            content_type: WebContentType::Text,
            content: match text {
                Some(t) => t,
                None => String::from_str("Forbidden"),
            },
            status_code: 403,
            metric_it: true,
        }
    }

    /// The failure that a URL decoding error surfaces as.
    pub fn from_decode_error(src: UrlDecodeError) -> (r: Self)
        ensures
            r.content_type is Text,
            r.status_code == 501,
            r.content@ == "UrlDecodeError: "@ + src.msg@,
            r.metric_it == true,
    {
        Self {
            status_code: 501,
            content_type: WebContentType::Text,
            content: String::from_str("UrlDecodeError: ").concat(src.msg.as_str()),
            metric_it: true,
        }
    }
}

} // verus!
