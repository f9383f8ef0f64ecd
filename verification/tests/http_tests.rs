use my_http_server::HttpContext;
use my_http_server::HttpFailResult;
use my_http_server::HttpHeaders;
use my_http_server::HttpOkResult;
use my_http_server::PathSegments;
use my_http_server::RequestIp;
use my_http_server::WebContentType;

fn context_for(path: &str, query: Option<&str>) -> HttpContext {
    HttpContext::new(
        path.to_string(),
        query.map(|q| q.to_string()),
        "GET".to_string(),
        Some("https".to_string()),
        vec![
            ("host".to_string(), "example.test:5123".to_string()),
            ("x-forwarded-for".to_string(), " 10.0.0.1 , 192.168.1.7".to_string()),
        ],
        "127.0.0.1:41000".to_string(),
    )
}

#[test]
fn test_fail_result_constructors() {
    let err = HttpFailResult::as_query_parameter_required("size");
    assert_eq!(400, err.status_code);
    assert_eq!("Query parameter 'size' is required", err.content);
    assert_eq!(WebContentType::Text, err.content_type);
    assert_eq!(true, err.metric_it);

    let err = HttpFailResult::as_path_parameter_required("id");
    assert_eq!(400, err.status_code);
    assert_eq!("Path parameter 'id' is required", err.content);

    let err = HttpFailResult::as_not_found("Page not found".to_string(), false);
    assert_eq!(404, err.status_code);
    assert_eq!("Page not found", err.content);
    assert_eq!(false, err.metric_it);

    let err = HttpFailResult::as_unauthorized(Some("no token".to_string()));
    assert_eq!(401, err.status_code);
    assert_eq!("Unauthorized request: no token", err.content);
    let err = HttpFailResult::as_unauthorized(None);
    assert_eq!("Unauthorized request", err.content);

    let err = HttpFailResult::as_forbidden(None);
    assert_eq!(403, err.status_code);
    assert_eq!("Forbidden", err.content);
}

#[test]
fn test_ok_result_constructors() {
    match HttpOkResult::create_as_usize(10540) {
        HttpOkResult::Content { content_type, content } => {
            assert_eq!(Some(WebContentType::Text), content_type);
            assert_eq!(b"10540".to_vec(), content);
        }
        _ => panic!("expected a content result"),
    }
    match HttpOkResult::create_as_usize(0) {
        HttpOkResult::Content { content, .. } => assert_eq!(b"0".to_vec(), content),
        _ => panic!("expected a content result"),
    }
    match HttpOkResult::redirect("/somewhere/else") {
        HttpOkResult::Redirect { url } => assert_eq!("/somewhere/else", url),
        _ => panic!("expected a redirect"),
    }
}

#[test]
fn test_headers_last_insert_wins() {
    let headers = HttpHeaders::new(vec![
        ("accept".to_string(), "text/html".to_string()),
        ("accept".to_string(), "application/json".to_string()),
    ]);
    assert_eq!("application/json", headers.get("accept").unwrap());
    assert!(headers.get("authorization").is_none());
}

#[test]
fn test_request_ip() {
    let ip = RequestIp::Result("127.0.0.1:5000".to_string());
    assert_eq!("127.0.0.1:5000", ip.get_real_ip());

    let ip = RequestIp::Forwarded(vec!["10.0.0.1".to_string(), "192.168.1.7".to_string()]);
    assert_eq!("10.0.0.1", ip.get_real_ip());
}

#[test]
fn test_context_path_values() {
    let mut ctx = context_for("/Segment1/MyValue/Segment2", None);
    assert_eq!("/Segment1/MyValue/Segment2", ctx.get_path());
    assert_eq!("/segment1/myvalue/segment2", ctx.get_path_lower_case());

    // no route resolved yet
    assert_eq!(403, ctx.get_value_from_path("Key1").unwrap_err().status_code);

    ctx.route = Some(PathSegments::new("/Segment1/{Key1}/Segment2"));
    assert_eq!("MyValue", ctx.get_value_from_path("Key1").unwrap());
    assert_eq!(
        Some("MyValue".to_string()),
        ctx.get_value_from_path_optional("Key1").unwrap()
    );

    // a key the route does not declare: the walk exhausts the path
    // tokens without finding it, so no value is reported
    let err = ctx.get_value_from_path("Nope").unwrap_err();
    assert_eq!(403, err.status_code);
    assert_eq!(
        "Route [/Segment1/{Key1}/Segment2] does not have value for the path [/Segment1/MyValue/Segment2] with the key [Nope]",
        err.content
    );
}

#[test]
fn test_context_trailing_key_value_absent() {
    let mut ctx = context_for("/Segment1/Segment2", None);
    ctx.route = Some(PathSegments::new("/Segment1/Segment2/{Key1}"));
    assert_eq!(None, ctx.get_value_from_path_optional("Key1").unwrap());
    let err = ctx.get_value_from_path("Key1").unwrap_err();
    assert_eq!(403, err.status_code);
}

#[test]
fn test_context_headers_and_ip() {
    let ctx = context_for("/", None);
    assert_eq!("example.test:5123", ctx.get_host());
    assert_eq!("GET", ctx.get_method());
    assert_eq!("https", ctx.get_scheme());
    assert_eq!(
        "example.test:5123",
        ctx.get_required_header("Host").unwrap()
    );
    let err = ctx.get_required_header("authorization").unwrap_err();
    assert_eq!(400, err.status_code);
    assert_eq!("Query parameter 'Header: authorization' is required", err.content);

    match ctx.get_ip() {
        RequestIp::Forwarded(ips) => {
            assert_eq!(vec!["10.0.0.1".to_string(), "192.168.1.7".to_string()], ips);
        }
        _ => panic!("expected a forwarded chain"),
    }
}

#[test]
fn test_context_query_string() {
    let ctx = context_for("/", Some("partitionKey=%2A&enabled=1"));
    let qs = ctx.get_query_string().unwrap();
    assert_eq!("*", qs.get_optional_string_parameter("partitionKey").unwrap());
    assert_eq!(true, qs.get_bool_parameter("enabled", false));

    let ctx = context_for("/", None);
    let err = ctx.get_query_string().unwrap_err();
    assert_eq!(403, err.status_code);
    assert_eq!("No query string found", err.content);

    let ctx = context_for("/", Some("bad=%zz"));
    let err = ctx.get_query_string().unwrap_err();
    assert_eq!(501, err.status_code);
}
