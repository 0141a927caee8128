//! Candidate eligibility and the integer terms of the routing score.
//!
//! The weighted speed and cost terms are floating point and are computed by
//! the caller from the terms decided here.
use vstd::prelude::*;
use crate::models::{ChatCompletionRequest, completion_budget, requested_completion, opt_view};
use crate::telemetry::PressureLevel;
use crate::num::{decimal, to_decimal};
use vstd::string::*;
use crate::text::{contains_str, has_infix, has_prefix, owned, starts_with, str_eq};

verus! {

/// What the scoring engine knows of a request.
pub struct RequestProfile {
    pub requested_model: String,
    pub requested_tier: String,
    pub estimated_prompt_tokens: usize,
    pub estimated_output_tokens: usize,
    pub require_stream: bool,
}

impl RequestProfile {
    /// Profiles a request; `default_tier` applies where the request names none.
    pub fn from_request(req: &ChatCompletionRequest, default_tier: &str) -> (p: Self)
        requires
            req.prompt_bytes_spec() <= usize::MAX,
        ensures
            p.requested_model@ == req.model@,
            p.requested_tier@ == match req.requested_tier_spec() {
                Some(t) => t,
                None => default_tier@,
            },
            p.estimated_prompt_tokens == req.prompt_tokens_spec(),
            p.estimated_output_tokens == requested_completion(req.max_completion_tokens, req.max_tokens),
            p.require_stream == match req.stream {
                Some(b) => b,
                None => false,
            },
    {
        let requested_tier = match req.requested_tier() {
            Some(t) => t,
            None => owned(default_tier),
        };
        let prompt_tokens = req.estimate_prompt_tokens();
        let output_tokens = completion_budget(req.max_completion_tokens, req.max_tokens);
        RequestProfile {
            requested_model: req.model.clone(),
            requested_tier,
            estimated_prompt_tokens: prompt_tokens,
            estimated_output_tokens: output_tokens,
            require_stream: match req.stream {
                Some(b) => b,
                None => false,
            },
        }
    }

    pub open spec fn total_spec(&self) -> nat {
        (self.estimated_prompt_tokens + self.estimated_output_tokens) as nat
    }

    /// Prompt plus expected output tokens.
    pub fn total_tokens(&self) -> (t: usize)
        requires
            self.total_spec() <= usize::MAX,
        ensures
            t == self.total_spec(),
    {
        self.estimated_prompt_tokens + self.estimated_output_tokens
    }
}

/// What the scoring engine reads of one (provider, model) pair.
pub struct CandidateProvider {
    pub provider_id: String,
    pub provider_name: String,
    pub provider_kind: String,
    pub provider_enabled: bool,
    pub is_healthy: bool,
    pub recent_failures: u32,
    pub model_name: String,
    pub max_context_tokens: usize,
    pub model_tier: Option<String>,
    pub psi_level: PressureLevel,
}

/// Why a candidate cannot serve a request.
pub enum Disqualification {
    ProviderDisabled,
    ContextLimitExceeded { tokens: usize, limit: usize },
    ModelMismatch { requested: String },
}

/// The text that explains a refusal.
pub open spec fn reason_text(d: Disqualification) -> Seq<char> {
    match d {
        Disqualification::ProviderDisabled => "Provider disabled in configuration"@,
        Disqualification::ContextLimitExceeded { tokens, limit } => "Context limit exceeded (tokens: "@
            + decimal(tokens as nat) + ", limit: "@ + decimal(limit as nat) + ")"@,
        Disqualification::ModelMismatch { requested } => "Model name does not match requested '"@
            + requested@ + "'"@,
    }
}

impl Disqualification {
    /// The reason shown for a refused candidate.
    pub fn reason(&self) -> (r: String)
        ensures
            r@ == reason_text(*self),
    {
        match self {
            Disqualification::ProviderDisabled => String::from_str("Provider disabled in configuration"),
            Disqualification::ContextLimitExceeded { tokens, limit } => {
                let mut r = String::from_str("Context limit exceeded (tokens: ");
                let t = to_decimal(*tokens as u64);
                r.append(t.as_str());
                r.append(", limit: ");
                let l = to_decimal(*limit as u64);
                r.append(l.as_str());
                r.append(")");
                r
            },
            Disqualification::ModelMismatch { requested } => {
                let mut r = String::from_str("Model name does not match requested '");
                r.append(requested.as_str());
                r.append("'");
                r
            },
        }
    }
}

/// The integer terms of an eligible candidate's score.
pub struct EligibleTerms {
    /// Match between the requested tier and the model's tier, out of 100.
    pub capability_score: u32,
    /// The model runs on this machine (the varlink broker or a provider whose id
    /// says `local`); memory pressure penalises only such candidates.
    pub is_local: bool,
    /// Penalty for the pressure level (local candidates only).
    pub psi_penalty: u32,
    /// Penalty for an unhealthy provider and its recent failures.
    pub health_penalty: u64,
}

pub enum Assessment {
    Disqualified(Disqualification),
    Eligible(EligibleTerms),
}

/// Model names that ask the router to choose: `router:*`, `fast`, `hard`,
/// `auto`, or no name at all.
pub open spec fn is_router_alias_spec(m: Seq<char>) -> bool {
    has_prefix(m, "router:"@) || m == "fast"@ || m == "hard"@ || m == "auto"@ || m.len() == 0
}

pub fn is_router_alias(m: &str) -> (b: bool)
    ensures
        b == is_router_alias_spec(m@),
{
    proof {
        reveal_strlit("");
    }
    let empty = str_eq(m, "");
    assert(empty == (m@.len() == 0)) by {
        if m@.len() == 0 {
            assert(m@ =~= ""@);
        }
    }
    starts_with(m, "router:") || str_eq(m, "fast") || str_eq(m, "hard") || str_eq(m, "auto") || empty
}

/// The tier a model belongs to: its configured tier, else `hard` for context
/// windows above 64000 tokens and `fast` otherwise.
pub open spec fn model_tier_spec(c: CandidateProvider) -> Seq<char> {
    match c.model_tier {
        Some(t) => t@,
        None => if c.max_context_tokens > 64000 {
            "hard"@
        } else {
            "fast"@
        },
    }
}

pub open spec fn capability_spec(requested_tier: Seq<char>, model_tier: Seq<char>) -> u32 {
    if requested_tier == "hard"@ {
        if model_tier == "hard"@ {
            95
        } else {
            35
        }
    } else if requested_tier == "fast"@ {
        if model_tier == "fast"@ {
            95
        } else {
            55
        }
    } else {
        75
    }
}

pub open spec fn is_local_spec(c: CandidateProvider) -> bool {
    c.provider_kind@ == "varlink"@ || has_infix(c.provider_id@, "local"@)
}

pub open spec fn psi_penalty_spec(is_local: bool, level: PressureLevel) -> u32 {
    if !is_local {
        0
    } else {
        match level {
            PressureLevel::Critical => 80,
            PressureLevel::Elevated => 25,
            PressureLevel::Normal => 0,
        }
    }
}

pub open spec fn health_penalty_spec(is_healthy: bool, failures: u32) -> nat {
    (if is_healthy {
        0nat
    } else {
        50nat
    }) + (failures as nat) * 15
}

/// The decision the scoring engine takes on one candidate.
pub open spec fn assess_spec(req: RequestProfile, c: CandidateProvider) -> Assessment {
    if !c.provider_enabled {
        Assessment::Disqualified(Disqualification::ProviderDisabled)
    } else if req.total_spec() > c.max_context_tokens {
        Assessment::Disqualified(
            Disqualification::ContextLimitExceeded {
                tokens: req.total_spec() as usize,
                limit: c.max_context_tokens,
            },
        )
    } else if !is_router_alias_spec(req.requested_model@) && c.model_name@ != req.requested_model@ {
        Assessment::Disqualified(Disqualification::ModelMismatch { requested: req.requested_model })
    } else {
        let local = is_local_spec(c);
        Assessment::Eligible(
            EligibleTerms {
                capability_score: capability_spec(req.requested_tier@, model_tier_spec(c)),
                is_local: local,
                psi_penalty: psi_penalty_spec(local, c.psi_level),
                health_penalty: health_penalty_spec(c.is_healthy, c.recent_failures) as u64,
            },
        )
    }
}

pub struct ScoringEngine;

impl ScoringEngine {
    /// Decides whether a candidate may serve a request and, if it may, the
    /// integer terms of its score.
    pub fn assess_candidate(req: &RequestProfile, cand: &CandidateProvider) -> (a: Assessment)
        requires
            req.total_spec() <= usize::MAX,
        ensures
            a == assess_spec(*req, *cand),
    {
        if !cand.provider_enabled {
            return Assessment::Disqualified(Disqualification::ProviderDisabled);
        }
        let total = req.total_tokens();
        if total > cand.max_context_tokens {
            return Assessment::Disqualified(
                Disqualification::ContextLimitExceeded { tokens: total, limit: cand.max_context_tokens },
            );
        }
        if !is_router_alias(req.requested_model.as_str()) && !str_eq(
            cand.model_name.as_str(),
            req.requested_model.as_str(),
        ) {
            return Assessment::Disqualified(
                Disqualification::ModelMismatch { requested: req.requested_model.clone() },
            );
        }
        let model_tier = match &cand.model_tier {
            Some(t) => t.clone(),
            None => if cand.max_context_tokens > 64000 {
                String::from_str("hard")
            } else {
                String::from_str("fast")
            },
        };
        let capability_score: u32 = if str_eq(req.requested_tier.as_str(), "hard") {
            if str_eq(model_tier.as_str(), "hard") {
                95
            } else {
                35
            }
        } else if str_eq(req.requested_tier.as_str(), "fast") {
            if str_eq(model_tier.as_str(), "fast") {
                95
            } else {
                55
            }
        } else {
            75
        };
        let is_local = str_eq(cand.provider_kind.as_str(), "varlink") || contains_str(
            cand.provider_id.as_str(),
            "local",
        );
        let psi_penalty: u32 = if is_local {
            match cand.psi_level {
                PressureLevel::Critical => 80,
                PressureLevel::Elevated => 25,
                PressureLevel::Normal => 0,
            }
        } else {
            0
        };
        let base: u64 = if cand.is_healthy {
            0
        } else {
            50
        };
        let health_penalty = base + (cand.recent_failures as u64) * 15;
        Assessment::Eligible(EligibleTerms { capability_score, is_local, psi_penalty, health_penalty })
    }
}

} // verus!
