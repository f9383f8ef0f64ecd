pub mod http_ctx;
pub mod http_fail_result;
pub mod http_headers;
pub mod http_ok_result;
pub mod http_server;
pub mod http_server_middleware;
pub mod path_segment;
pub mod path_segments;
pub mod query_string;
pub mod request_ip;
pub mod strings;
pub mod url_decoder;
pub mod url_utils;
pub mod web_content_type;

pub use http_ctx::HttpContext;
pub use http_fail_result::HttpFailResult;
pub use http_headers::HttpHeaders;
pub use http_ok_result::HttpOkResult;
pub use http_server::handle_requests;
pub use http_server_middleware::HttpServerMiddleware;
pub use http_server_middleware::MiddleWareResult;
pub use request_ip::RequestIp;
pub use path_segment::PathSegment;
pub use path_segments::GetPathValueResult;
pub use path_segments::PathSegments;
pub use query_string::QueryString;
pub use strings::path_tokens;
pub use url_decoder::UrlDecodeError;
pub use web_content_type::WebContentType;
