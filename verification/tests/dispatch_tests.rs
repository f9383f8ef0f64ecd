use std::sync::Arc;

use my_http_server::HttpContext;
use my_http_server::HttpFailResult;
use my_http_server::HttpOkResult;
use my_http_server::HttpServerMiddleware;
use my_http_server::MiddleWareResult;
use my_http_server::handle_requests;

enum Behavior {
    Continue,
    Terminal,
    Fail,
    Poison,
}

struct TestMiddleware {
    behavior: Behavior,
}

impl HttpServerMiddleware<()> for TestMiddleware {
    fn handle_request(
        &self,
        ctx: HttpContext,
        _app: &Arc<()>,
    ) -> Result<MiddleWareResult, HttpFailResult> {
        match self.behavior {
            Behavior::Continue => Ok(MiddleWareResult::Next(ctx)),
            Behavior::Terminal => Ok(MiddleWareResult::Done(HttpOkResult::Okay)),
            Behavior::Fail => Err(HttpFailResult::as_unauthorized(None)),
            Behavior::Poison => panic!("a middleware after the terminal one must never run"),
        }
    }
}

fn fresh_context() -> HttpContext {
    HttpContext::new(
        "/".to_string(),
        None,
        "GET".to_string(),
        None,
        Vec::new(),
        "127.0.0.1:1".to_string(),
    )
}

#[test]
fn test_third_middleware_short_circuits() {
    let middlewares = vec![
        TestMiddleware { behavior: Behavior::Continue },
        TestMiddleware { behavior: Behavior::Continue },
        TestMiddleware { behavior: Behavior::Terminal },
        TestMiddleware { behavior: Behavior::Poison },
    ];
    let result = handle_requests(&middlewares, fresh_context(), &Arc::new(()));
    assert!(matches!(result, Ok(HttpOkResult::Okay)));
}

#[test]
fn test_exhausted_chain_is_not_found() {
    let middlewares = vec![
        TestMiddleware { behavior: Behavior::Continue },
        TestMiddleware { behavior: Behavior::Continue },
        TestMiddleware { behavior: Behavior::Continue },
    ];
    let result = handle_requests(&middlewares, fresh_context(), &Arc::new(()));
    let err = result.unwrap_err();
    assert_eq!(404, err.status_code);
    assert_eq!("Page not found", err.content);
    assert_eq!(false, err.metric_it);
}

#[test]
fn test_empty_chain_is_not_found() {
    let middlewares: Vec<TestMiddleware> = Vec::new();
    let result = handle_requests(&middlewares, fresh_context(), &Arc::new(()));
    let err = result.unwrap_err();
    assert_eq!(404, err.status_code);
    assert_eq!("Page not found", err.content);
}

#[test]
fn test_failing_middleware_short_circuits() {
    let middlewares = vec![
        TestMiddleware { behavior: Behavior::Continue },
        TestMiddleware { behavior: Behavior::Fail },
        TestMiddleware { behavior: Behavior::Poison },
    ];
    let result = handle_requests(&middlewares, fresh_context(), &Arc::new(()));
    let err = result.unwrap_err();
    assert_eq!(401, err.status_code);
    assert_eq!("Unauthorized request", err.content);
}
