//! The router's error type.
use vstd::prelude::*;
use vstd::string::*;
use crate::num::{decimal, to_decimal};

verus! {

/// Errors of the routing engine. Failures reported by the operating system,
/// the JSON and TOML codecs and the HTTP client carry their message.
#[derive(Debug)]
pub enum RouterError {
    Config(String),
    Credential(String),
    Routing(String),
    ContextLimitExceeded { model: String, requested_tokens: usize, context_limit: usize },
    NoHealthyProvider(String),
    ProviderUnavailable { provider: String, reason: String },
    Varlink(String),
    Io(String),
    Json(String),
    Toml(String),
    Http(String),
    Timeout(String),
    Other(String),
}

/// The text an error is shown with.
pub open spec fn error_text(e: RouterError) -> Seq<char> {
    match e {
        RouterError::Config(s) => "Configuration error: "@ + s@,
        RouterError::Credential(s) => "Credential error: "@ + s@,
        RouterError::Routing(s) => "Routing error: "@ + s@,
        RouterError::ContextLimitExceeded { model, requested_tokens, context_limit } =>
            "Context limit exceeded for model '"@ + model@ + "': requested "@ + decimal(
            requested_tokens as nat,
        ) + " tokens, max allowed is "@ + decimal(context_limit as nat),
        RouterError::NoHealthyProvider(s) => "No healthy provider available for request: "@ + s@,
        RouterError::ProviderUnavailable { provider, reason } => "Provider '"@ + provider@
            + "' unavailable: "@ + reason@,
        RouterError::Varlink(s) => "Varlink error: "@ + s@,
        RouterError::Io(s) => "I/O error: "@ + s@,
        RouterError::Json(s) => "Serialization error: "@ + s@,
        RouterError::Toml(s) => "TOML parse error: "@ + s@,
        RouterError::Http(s) => "HTTP client error: "@ + s@,
        RouterError::Timeout(s) => "Operation timed out: "@ + s@,
        RouterError::Other(s) => "Internal router error: "@ + s@,
    }
}

fn prefixed(prefix: &str, s: &String) -> (r: String)
    ensures
        r@ == prefix@ + s@,
{
    let mut r = String::from_str(prefix);
    r.append(s.as_str());
    r
}

impl RouterError {
    /// The error's message, as it is shown to users and clients.
    pub fn message(&self) -> (m: String)
        ensures
            m@ == error_text(*self),
    {
        match self {
            RouterError::Config(s) => prefixed("Configuration error: ", s),
            RouterError::Credential(s) => prefixed("Credential error: ", s),
            RouterError::Routing(s) => prefixed("Routing error: ", s),
            RouterError::ContextLimitExceeded { model, requested_tokens, context_limit } => {
                let mut m = prefixed("Context limit exceeded for model '", model);
                m.append("': requested ");
                let req = to_decimal(*requested_tokens as u64);
                m.append(req.as_str());
                m.append(" tokens, max allowed is ");
                let lim = to_decimal(*context_limit as u64);
                m.append(lim.as_str());
                m
            },
            RouterError::NoHealthyProvider(s) => prefixed(
                "No healthy provider available for request: ",
                s,
            ),
            RouterError::ProviderUnavailable { provider, reason } => {
                let mut m = prefixed("Provider '", provider);
                m.append("' unavailable: ");
                m.append(reason.as_str());
                m
            },
            RouterError::Varlink(s) => prefixed("Varlink error: ", s),
            RouterError::Io(s) => prefixed("I/O error: ", s),
            RouterError::Json(s) => prefixed("Serialization error: ", s),
            RouterError::Toml(s) => prefixed("TOML parse error: ", s),
            RouterError::Http(s) => prefixed("HTTP client error: ", s),
            RouterError::Timeout(s) => prefixed("Operation timed out: ", s),
            RouterError::Other(s) => prefixed("Internal router error: ", s),
        }
    }
}

} // verus!
