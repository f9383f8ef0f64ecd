//! The middleware chain dispatcher: a strict linear scan over the
//! registered middlewares, short-circuiting on the first terminal
//! outcome, with a not-found failure when the chain is exhausted.

use vstd::prelude::*;
use std::sync::Arc;
use crate::http_ctx::HttpContext;
use crate::http_fail_result::HttpFailResult;
use crate::http_ok_result::HttpOkResult;
use crate::http_server_middleware::HttpServerMiddleware;
use crate::http_server_middleware::MiddleWareResult;

verus! {

/// What the chain does after one middleware outcome: stop with a
/// terminal result, or continue with the returned context.
pub enum DispatchStep {
    Terminal(Result<HttpOkResult, HttpFailResult>),
    Next(HttpContext),
}

/// The chain's reaction to one middleware outcome: a terminal result
/// short-circuits, a failure short-circuits the same way, and a
/// continue hands the context on.
pub fn dispatch_step(outcome: Result<MiddleWareResult, HttpFailResult>) -> (r: DispatchStep)
    ensures
        match outcome {
            Ok(MiddleWareResult::Done(ok)) => r == DispatchStep::Terminal(
                Result::<HttpOkResult, HttpFailResult>::Ok(ok),
            ),
            Ok(MiddleWareResult::Next(ctx)) => r == DispatchStep::Next(ctx),
            Err(e) => r == DispatchStep::Terminal(
                Result::<HttpOkResult, HttpFailResult>::Err(e),
            ),
        },
{
    match outcome {
        Ok(MiddleWareResult::Done(ok_result)) => DispatchStep::Terminal(Ok(ok_result)),
        Ok(MiddleWareResult::Next(next_ctx)) => DispatchStep::Next(next_ctx),
        Err(fail_result) => DispatchStep::Terminal(Err(fail_result)),
    }
}

/// Hands the context to each middleware in registration order; the
/// first terminal outcome is the response, and an exhausted chain
/// becomes the not-found failure.
pub fn handle_requests<TAppContext, M: HttpServerMiddleware<TAppContext>>(
    middlewares: &Vec<M>,
    ctx: HttpContext,
    app: &Arc<TAppContext>,
) -> (r: Result<HttpOkResult, HttpFailResult>)
    ensures
        middlewares@.len() == 0 ==> (r matches Err(e) && {
            &&& e.status_code == 404
            &&& e.content_type is Text
            &&& e.content@ == "Page not found"@
            &&& e.metric_it == false
        }),
{
    let mut current = ctx;
    let mut i: usize = 0;
    while i < middlewares.len()
        invariant
            i <= middlewares@.len(),
        decreases middlewares@.len() - i,
    {
        let outcome = middlewares[i].handle_request(current, app);
        match dispatch_step(outcome) {
            DispatchStep::Terminal(result) => {
                return result;
            },
            DispatchStep::Next(next_ctx) => {
                current = next_ctx;
            },
        }
        i = i + 1;
    }
    Err(HttpFailResult::as_not_found(String::from_str("Page not found"), false))
}

} // verus!
