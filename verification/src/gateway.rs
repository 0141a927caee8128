//! Decisions of the HTTP gateway: where a request's tier comes from, and how
//! routing failures are answered.
use vstd::prelude::*;
use crate::error::RouterError;
use crate::models::ChatCompletionRequest;
use crate::text::owned;

verus! {

/// HTTP status and error type for a routing failure: a request over the
/// context limit is the client's fault (400), no healthy provider is 503,
/// an unavailable provider 502, a timeout 504, anything else 500.
pub fn map_error_status(err: &RouterError) -> (r: (u16, &'static str))
    ensures
        match *err {
            RouterError::ContextLimitExceeded { .. } => r.0 == 400 && r.1@
                == "context_limit_exceeded"@,
            RouterError::NoHealthyProvider(_) => r.0 == 503 && r.1@ == "no_healthy_provider"@,
            RouterError::ProviderUnavailable { .. } => r.0 == 502 && r.1@
                == "provider_unavailable"@,
            RouterError::Timeout(_) => r.0 == 504 && r.1@ == "timeout"@,
            _ => r.0 == 500 && r.1@ == "internal_error"@,
        },
{
    match err {
        RouterError::ContextLimitExceeded { .. } => (400, "context_limit_exceeded"),
        RouterError::NoHealthyProvider(_) => (503, "no_healthy_provider"),
        RouterError::ProviderUnavailable { .. } => (502, "provider_unavailable"),
        RouterError::Timeout(_) => (504, "timeout"),
        _ => (500, "internal_error"),
    }
}

/// The tier a request is routed with: the one in its body, else the value of
/// its `x-syntrop-tier` header (`header`, where present and readable).
pub fn apply_tier_header(request: &mut ChatCompletionRequest, header: Option<&str>)
    ensures
        old(request).tier is Some ==> final(request).tier == old(request).tier,
        old(request).tier is None ==> match header {
            Some(h) => final(request).tier matches Some(t) && t@ == h@,
            None => final(request).tier is None,
        },
        final(request).model == old(request).model,
        final(request).messages == old(request).messages,
        final(request).max_tokens == old(request).max_tokens,
        final(request).max_completion_tokens == old(request).max_completion_tokens,
        final(request).stream == old(request).stream,
{
    if request.tier.is_none() {
        if let Some(h) = header {
            request.tier = Some(owned(h));
        }
    }
}

/// Whether the client asked for a streamed answer (absent means no).
pub fn wants_stream(request: &ChatCompletionRequest) -> (b: bool)
    ensures
        b == (request.stream == Some(true)),
{
    match request.stream {
        Some(s) => s,
        None => false,
    }
}

} // verus!
