//! The middleware interface: each registered middleware takes
//! ownership of the request context and either ends the chain with a
//! result or hands an updated context on.

use vstd::prelude::*;
use std::sync::Arc;
use crate::http_ctx::HttpContext;
use crate::http_fail_result::HttpFailResult;
use crate::http_ok_result::HttpOkResult;

verus! {

/// What one middleware hands back: a terminal result, or the context
/// the next middleware receives.
pub enum MiddleWareResult {
    Done(HttpOkResult),
    Next(HttpContext),
}

pub trait HttpServerMiddleware<TAppContext> {
    fn handle_request(&self, ctx: HttpContext, app: &Arc<TAppContext>) -> Result<
        MiddleWareResult,
        HttpFailResult,
    >;
}

} // verus!
