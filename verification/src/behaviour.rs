//! What the router's decisions are for, stated over their inputs: which
//! candidates may serve and how their terms are scored, where an API key is
//! read from, which tier a request asks for, which Varlink method a name
//! calls, and which adapter a provider kind gets.
use vstd::prelude::*;
use crate::adapters::{
    adapter_kind_spec, health_verdict_spec, openai_endpoint_spec, trim_slashes_spec, versioned_root,
    AdapterKind, HealthVerdict,
};
use crate::credentials::{classify_spec, lookup_plan, resolve_spec, Found, KeyOutcome, LookupView, CredentialSourceView};
use crate::models::ChatCompletionRequest;
use crate::scoring::{assess_spec, Assessment, CandidateProvider, Disqualification, RequestProfile};
use crate::models::tokens_for_bytes;
use crate::telemetry::{level_from_name, PressureLevel};
use crate::text::{ascii_lower, eq_ascii_ci, has_infix, has_prefix, has_suffix, trim_seq};
use crate::varlink::{classify_method_spec, Router1Method, VarlinkMethod};

verus! {

/// The text found at a place looked up, if any.
pub open spec fn text_found(f: Found) -> Option<Seq<char>> {
    match f {
        Found::Text(t) => Some(t@),
        _ => None,
    }
}

/// The message of a file that exists but could not be read, if so.
pub open spec fn failure_found(f: Found) -> Option<Seq<char>> {
    match f {
        Found::Unreadable(m) => Some(m@),
        _ => None,
    }
}

/// An eligible candidate's capability term follows the requested tier and the
/// model's tier (its configured tier, else `hard` for a context window above
/// 64000 tokens and `fast` otherwise): 95 where both are `fast` or both are
/// `hard`, 55 for a `fast` request on a model of another tier, 35 for a `hard`
/// request on a model of another tier, and 75 for any other requested tier.
pub proof fn law_capability_follows_tiers(req: RequestProfile, c: CandidateProvider)
    ensures
        assess_spec(req, c) matches Assessment::Eligible(t) ==> ({
            let mt = match c.model_tier {
                Some(x) => x@,
                None => if c.max_context_tokens > 64000 {
                    "hard"@
                } else {
                    "fast"@
                },
            };
            let rt = req.requested_tier@;
            &&& (rt == "fast"@ && mt == "fast"@) ==> t.capability_score == 95
            &&& (rt == "hard"@ && mt == "hard"@) ==> t.capability_score == 95
            &&& (rt == "fast"@ && mt != "fast"@) ==> t.capability_score == 55
            &&& (rt == "hard"@ && mt != "hard"@) ==> t.capability_score == 35
            &&& (rt != "fast"@ && rt != "hard"@) ==> t.capability_score == 75
        }),
{
    reveal_strlit("fast");
    reveal_strlit("hard");
    assert("fast"@ != "hard"@) by {
        assert("fast"@[0] != "hard"@[0]);
    }
}

/// A request on the `fast` or `hard` tier scores a model of that tier above a
/// model of any other tier, other things equal.
pub proof fn law_tier_prefers_its_own_models(req: RequestProfile, a: CandidateProvider, b: CandidateProvider)
    requires
        req.requested_tier@ == "fast"@ || req.requested_tier@ == "hard"@,
        a.model_tier is Some,
        a.model_tier->0@ == req.requested_tier@,
        b.model_tier is Some,
        b.model_tier->0@ != req.requested_tier@,
    ensures
        assess_spec(req, a) matches Assessment::Eligible(ta) ==> (assess_spec(req, b) matches Assessment::Eligible(tb)
            ==> ta.capability_score > tb.capability_score),
{
    law_capability_follows_tiers(req, a);
    law_capability_follows_tiers(req, b);
}

/// Which candidates may serve a request: never one whose provider is
/// disabled; never one whose context window is smaller than the prompt and
/// the expected output together (reported with both figures); never one
/// whose model is not the model named, unless the name asks the router to
/// choose (`router:` and anything, `fast`, `hard`, `auto`, or no name); every
/// other candidate may.
pub proof fn law_eligibility(req: RequestProfile, c: CandidateProvider)
    ensures
        !c.provider_enabled ==> assess_spec(req, c) == Assessment::Disqualified(
            Disqualification::ProviderDisabled,
        ),
        c.provider_enabled && req.estimated_prompt_tokens + req.estimated_output_tokens
            > c.max_context_tokens ==> assess_spec(req, c) == Assessment::Disqualified(
            Disqualification::ContextLimitExceeded {
                tokens: (req.estimated_prompt_tokens + req.estimated_output_tokens) as usize,
                limit: c.max_context_tokens,
            },
        ),
        c.provider_enabled && req.estimated_prompt_tokens + req.estimated_output_tokens
            <= c.max_context_tokens && (c.model_name@ == req.requested_model@ || has_prefix(
            req.requested_model@,
            "router:"@,
        ) || req.requested_model@ == "fast"@ || req.requested_model@ == "hard"@
            || req.requested_model@ == "auto"@ || req.requested_model@.len() == 0) ==> assess_spec(
            req,
            c,
        ) is Eligible,
        c.provider_enabled && req.estimated_prompt_tokens + req.estimated_output_tokens
            <= c.max_context_tokens && c.model_name@ != req.requested_model@ && !has_prefix(
            req.requested_model@,
            "router:"@,
        ) && req.requested_model@ != "fast"@ && req.requested_model@ != "hard"@
            && req.requested_model@ != "auto"@ && req.requested_model@.len() > 0 ==> assess_spec(
            req,
            c,
        ) == Assessment::Disqualified(
            Disqualification::ModelMismatch { requested: req.requested_model },
        ),
{
}

/// An eligible candidate's penalties: it counts as local when its kind is
/// `varlink` or its id contains `local`; memory pressure costs only a local
/// candidate, 80 when critical and 25 when elevated; an unhealthy provider
/// costs 50, and each recent failure 15 more.
pub proof fn law_penalties(req: RequestProfile, c: CandidateProvider)
    ensures
        assess_spec(req, c) matches Assessment::Eligible(t) ==> ({
            &&& t.is_local == (c.provider_kind@ == "varlink"@ || has_infix(c.provider_id@, "local"@))
            &&& !t.is_local ==> t.psi_penalty == 0
            &&& t.is_local && c.psi_level == PressureLevel::Critical ==> t.psi_penalty == 80
            &&& t.is_local && c.psi_level == PressureLevel::Elevated ==> t.psi_penalty == 25
            &&& c.psi_level == PressureLevel::Normal ==> t.psi_penalty == 0
            &&& t.health_penalty == (if c.is_healthy {
                0int
            } else {
                50int
            }) + 15 * c.recent_failures
        }),
{
}

/// A setting that is an absolute path (after trimming) names one file, that
/// path; where the file exists, what it says decides: its trimmed text is the
/// key (no key where it is blank) and a failure to read it is a credential
/// error. Only where the file does not exist is the path itself the key.
pub proof fn law_path_setting_reads_the_file(
    raw: Seq<char>,
    dir: Option<Seq<char>>,
    id: Seq<char>,
    found: Seq<Found>,
    t: Seq<char>,
)
    requires
        has_prefix(trim_seq(raw), "/"@),
    ensures
        classify_spec(Some(raw)) == CredentialSourceView::PathOrLiteral(trim_seq(raw)),
        lookup_plan(classify_spec(Some(raw)), dir, id) == seq![LookupView::File(trim_seq(raw))],
        found.len() > 0 && text_found(found[0]) == Some(t) ==> resolve_spec(
            classify_spec(Some(raw)),
            dir is Some,
            found,
        ) == (if trim_seq(t).len() == 0 {
            KeyOutcome::NoKey
        } else {
            KeyOutcome::Key(trim_seq(t))
        }),
        found.len() > 0 && failure_found(found[0]) == Some(t) ==> resolve_spec(
            classify_spec(Some(raw)),
            dir is Some,
            found,
        ) == KeyOutcome::Failed(t),
        (found.len() == 0 || found[0] is Nothing) ==> resolve_spec(
            classify_spec(Some(raw)),
            dir is Some,
            found,
        ) == KeyOutcome::Key(trim_seq(raw)),
{
    reveal_strlit("/");
    reveal_strlit("cred:");
    reveal_strlit("env:");
    reveal_strlit("${");
    reveal_strlit("$");
    let t = trim_seq(raw);
    assert(t.subrange(0, 1) == "/"@);
    assert(t[0] == '/') by {
        assert(t.subrange(0, 1)[0] == t[0]);
    }
    assert(!has_prefix(t, "cred:"@)) by {
        if has_prefix(t, "cred:"@) {
            assert(t.subrange(0, 5)[0] == t[0]);
        }
    }
    assert(!has_prefix(t, "env:"@)) by {
        if has_prefix(t, "env:"@) {
            assert(t.subrange(0, 4)[0] == t[0]);
        }
    }
    assert(!has_prefix(t, "${"@)) by {
        if has_prefix(t, "${"@) {
            assert(t.subrange(0, 2)[0] == t[0]);
        }
    }
    assert(!has_prefix(t, "$"@)) by {
        if has_prefix(t, "$"@) {
            assert(t.subrange(0, 1)[0] == t[0]);
        }
    }
}

/// The forms of a credential setting, after trimming: `cred:NAME` names a
/// systemd credential, `env:NAME`, `${NAME}` (with a name) and `$NAME` name an
/// environment variable, and no setting or a blank one leaves the provider's
/// fallback names.
pub proof fn law_credential_setting_forms(raw: Seq<char>, n: Seq<char>)
    ensures
        trim_seq(raw) == "cred:"@ + n ==> classify_spec(Some(raw)) == CredentialSourceView::Systemd(n),
        trim_seq(raw) == "env:"@ + n ==> classify_spec(Some(raw)) == CredentialSourceView::Env(n),
        trim_seq(raw) == "${"@ + n + "}"@ && n.len() > 0 ==> classify_spec(Some(raw))
            == CredentialSourceView::Env(n),
        trim_seq(raw) == "$"@ + n && n.len() > 0 && n[0] != '{' ==> classify_spec(Some(raw))
            == CredentialSourceView::Env(n),
        trim_seq(raw).len() == 0 ==> classify_spec(Some(raw)) == CredentialSourceView::ProviderFallback,
        classify_spec(None) == CredentialSourceView::ProviderFallback,
{
    reveal_strlit("cred:");
    reveal_strlit("env:");
    reveal_strlit("${");
    reveal_strlit("}");
    reveal_strlit("$");
    let t = trim_seq(raw);
    if t == "cred:"@ + n {
        assert(t.subrange(0, 5) =~= "cred:"@);
        assert(t.subrange(5, t.len() as int) =~= n);
    }
    if t == "env:"@ + n {
        assert(t.subrange(0, 4) =~= "env:"@);
        assert(t.subrange(4, t.len() as int) =~= n);
        assert(!has_prefix(t, "cred:"@)) by {
            if has_prefix(t, "cred:"@) {
                assert(t.subrange(0, 5)[0] == t[0]);
            }
        }
    }
    if t == "${"@ + n + "}"@ && n.len() > 0 {
        assert(t[0] == '$');
        assert(!has_prefix(t, "cred:"@)) by {
            if has_prefix(t, "cred:"@) {
                assert(t.subrange(0, 5)[0] == t[0]);
            }
        }
        assert(!has_prefix(t, "env:"@)) by {
            if has_prefix(t, "env:"@) {
                assert(t.subrange(0, 4)[0] == t[0]);
            }
        }
        assert(t.subrange(0, 2) =~= "${"@);
        assert(t.subrange(t.len() - 1, t.len() as int) =~= "}"@);
        assert(t.subrange(2, t.len() - 1) =~= n);
    }
    if t == "$"@ + n && n.len() > 0 && n[0] != '{' {
        assert(t[0] == '$');
        assert(t[1] == n[0]);
        assert(!has_prefix(t, "cred:"@)) by {
            if has_prefix(t, "cred:"@) {
                assert(t.subrange(0, 5)[0] == t[0]);
            }
        }
        assert(!has_prefix(t, "env:"@)) by {
            if has_prefix(t, "env:"@) {
                assert(t.subrange(0, 4)[0] == t[0]);
            }
        }
        assert(!has_prefix(t, "${"@)) by {
            if has_prefix(t, "${"@) {
                assert(t.subrange(0, 2)[1] == t[1]);
            }
        }
        assert(t.subrange(0, 1) =~= "$"@);
        assert(t.subrange(1, t.len() as int) =~= n);
    }
}

/// An environment setting (`env:NAME`, `${NAME}`, `$NAME`) reads that one
/// variable: its trimmed value where set and not blank, else no key.
pub proof fn law_env_setting_reads_the_variable(name: Seq<char>, has_dir: bool, found: Seq<Found>, v: Seq<char>)
    ensures
        found.len() > 0 && text_found(found[0]) == Some(v) && trim_seq(v).len() > 0 ==> resolve_spec(
            CredentialSourceView::Env(name),
            has_dir,
            found,
        ) == KeyOutcome::Key(trim_seq(v)),
        found.len() == 0 || text_found(found[0]) is None || trim_seq(text_found(found[0])->0).len()
            == 0 ==> resolve_spec(CredentialSourceView::Env(name), has_dir, found) == KeyOutcome::NoKey,
{
}

/// A named systemd credential (`cred:NAME`) is settled by the first of its
/// files that exists: its trimmed text (no key where blank), or a credential
/// error where it cannot be read; where no file exists, the variable standing
/// in for it counts when set and not blank.
pub proof fn law_named_credential_first_file_decides(name: Seq<char>, has_dir: bool, found: Seq<Found>, t: Seq<char>)
    ensures
        found.len() > 0 && text_found(found[0]) == Some(t) ==> resolve_spec(
            CredentialSourceView::Systemd(name),
            has_dir,
            found,
        ) == (if trim_seq(t).len() == 0 {
            KeyOutcome::NoKey
        } else {
            KeyOutcome::Key(trim_seq(t))
        }),
        found.len() > 0 && failure_found(found[0]) == Some(t) ==> resolve_spec(
            CredentialSourceView::Systemd(name),
            has_dir,
            found,
        ) == KeyOutcome::Failed(t),
        !has_dir && found.len() > 1 && found[0] is Nothing && text_found(found[1]) == Some(t)
            && trim_seq(t).len() > 0 ==> resolve_spec(CredentialSourceView::Systemd(name), has_dir, found)
            == KeyOutcome::Key(trim_seq(t)),
        has_dir && found.len() > 2 && found[0] is Nothing && found[1] is Nothing && text_found(found[2])
            == Some(t) && trim_seq(t).len() > 0 ==> resolve_spec(
            CredentialSourceView::Systemd(name),
            has_dir,
            found,
        ) == KeyOutcome::Key(trim_seq(t)),
{
    reveal_with_fuel(crate::credentials::systemd_says, 3);
}

/// A provider without a setting takes, where its systemd credential gives no
/// key, the first of `ROUTERD_<ID>_API_KEY` and `<ID>_API_KEY` that is set and
/// not blank; a key from its systemd credential comes first.
pub proof fn law_fallback_prefers_credential_then_variables(
    has_dir: bool,
    found: Seq<Found>,
    k: Seq<char>,
    v: Seq<char>,
)
    ensures
        ({
            let n: int = if has_dir {
                2
            } else {
                1
            };
            let out = resolve_spec(CredentialSourceView::ProviderFallback, has_dir, found);
            &&& crate::credentials::systemd_says(found, 0, n) == KeyOutcome::Key(k) ==> out
                == KeyOutcome::Key(k)
            &&& (crate::credentials::systemd_says(found, 0, n) !is Key && n + 1 < found.len()
                && text_found(found[n + 1]) == Some(v) && trim_seq(v).len() > 0) ==> out
                == KeyOutcome::Key(trim_seq(v))
        }),
{
}

/// The tier a request asks for: its `tier` field where present; otherwise,
/// for a model `router:` followed by `t`, exactly `t`; for the models `fast`
/// and `hard`, that tier; for any other model, none.
pub proof fn law_requested_tier(req: ChatCompletionRequest, t: Seq<char>)
    ensures
        req.tier matches Some(x) ==> req.requested_tier_spec() == Some(x@),
        req.tier is None && req.model@ == "router:"@ + t ==> req.requested_tier_spec() == Some(t),
        req.tier is None && (req.model@ == "fast"@ || req.model@ == "hard"@) ==> req.requested_tier_spec()
            == Some(req.model@),
        req.tier is None && !has_prefix(req.model@, "router:"@) && req.model@ != "fast"@ && req.model@
            != "hard"@ ==> req.requested_tier_spec() is None,
{
    reveal_strlit("router:");
    reveal_strlit("fast");
    reveal_strlit("hard");
    if req.tier is None && req.model@ == "router:"@ + t {
        assert(req.model@.subrange(0, 7) =~= "router:"@);
        assert(has_prefix(req.model@, "router:"@));
        assert(req.model@.subrange(7, req.model@.len() as int) =~= t);
    }
}

/// The name of a method of `io.syntrop.Router1`.
pub open spec fn router1_name(m: Router1Method) -> Seq<char> {
    match m {
        Router1Method::GetStatus => "GetStatus"@,
        Router1Method::ListProviders => "ListProviders"@,
        Router1Method::ListModels => "ListModels"@,
        Router1Method::RouteRequest => "RouteRequest"@,
        Router1Method::TestProvider => "TestProvider"@,
    }
}

/// The service's own methods are reached by their full names only.
pub proof fn law_service_dispatch(name: Seq<char>)
    ensures
        classify_method_spec(name) == VarlinkMethod::GetInfo <==> name == "org.varlink.service.GetInfo"@,
        classify_method_spec(name) == VarlinkMethod::GetInterfaceDescription <==> name
            == "org.varlink.service.GetInterfaceDescription"@,
{
    reveal_strlit("org.varlink.service.GetInfo");
    reveal_strlit("org.varlink.service.GetInterfaceDescription");
    assert("org.varlink.service.GetInfo"@ != "org.varlink.service.GetInterfaceDescription"@) by {
        assert("org.varlink.service.GetInfo"@.len() != "org.varlink.service.GetInterfaceDescription"@.len());
    }
}

/// A call is dispatched to a method of `io.syntrop.Router1` exactly when its
/// name is the interface's name, a dot and that method's name: each method
/// reaches its own handler, and no two names reach the same one.
pub proof fn law_router1_dispatch(name: Seq<char>, m: Router1Method)
    ensures
        classify_method_spec(name) == VarlinkMethod::Router1(m) <==> name == "io.syntrop.Router1."@
            + router1_name(m),
{
    reveal_strlit("io.syntrop.Router1.");
    reveal_strlit("org.varlink.service.GetInfo");
    reveal_strlit("org.varlink.service.GetInterfaceDescription");
    reveal_strlit("GetStatus");
    reveal_strlit("ListProviders");
    reveal_strlit("ListModels");
    reveal_strlit("RouteRequest");
    reveal_strlit("TestProvider");
    let p = "io.syntrop.Router1."@;
    let full = p + router1_name(m);
    assert(full.subrange(0, p.len() as int) =~= p);
    assert(full.subrange(p.len() as int, full.len() as int) =~= router1_name(m));
    assert(full != "org.varlink.service.GetInfo"@) by {
        assert(full[0] != "org.varlink.service.GetInfo"@[0]);
    }
    assert(full != "org.varlink.service.GetInterfaceDescription"@) by {
        assert(full[0] != "org.varlink.service.GetInterfaceDescription"@[0]);
    }
    assert("RouteRequest"@ != "TestProvider"@) by {
        assert("RouteRequest"@[0] != "TestProvider"@[0]);
    }
    if classify_method_spec(name) == VarlinkMethod::Router1(m) {
        let sub = name.subrange(p.len() as int, name.len() as int);
        assert(sub == router1_name(m));
        assert(name =~= name.subrange(0, p.len() as int) + sub);
    }
}

/// Two strings equal to different ASCII words up to ASCII case cannot be one
/// string where the words differ in a letter's case-folded form at `i`.
proof fn lemma_ci_apart(kind: Seq<char>, a: Seq<char>, b: Seq<char>, i: int)
    requires
        0 <= i < a.len(),
        i < b.len(),
        ascii_lower(a[i]) != ascii_lower(b[i]),
    ensures
        !(eq_ascii_ci(kind, a) && eq_ascii_ci(kind, b)),
{
    if eq_ascii_ci(kind, a) && eq_ascii_ci(kind, b) {
        assert(ascii_lower(kind[i]) == ascii_lower(a[i]));
        assert(ascii_lower(kind[i]) == ascii_lower(b[i]));
    }
}

/// A provider kind picks its adapter whatever its ASCII case: `minimax` the
/// MiniMax adapter, `ollama` the Ollama adapter, `varlink` or `syntrop` the
/// bridge to the local broker; any other kind the OpenAI-compatible one.
pub proof fn law_adapter_by_kind(kind: Seq<char>)
    ensures
        eq_ascii_ci(kind, "minimax"@) ==> adapter_kind_spec(kind) == AdapterKind::MiniMax,
        eq_ascii_ci(kind, "ollama"@) ==> adapter_kind_spec(kind) == AdapterKind::Ollama,
        eq_ascii_ci(kind, "varlink"@) || eq_ascii_ci(kind, "syntrop"@) ==> adapter_kind_spec(kind)
            == AdapterKind::VarlinkBridge,
        !eq_ascii_ci(kind, "minimax"@) && !eq_ascii_ci(kind, "ollama"@) && !eq_ascii_ci(kind, "varlink"@)
            && !eq_ascii_ci(kind, "syntrop"@) ==> adapter_kind_spec(kind) == AdapterKind::OpenAICompatible,
{
    reveal_strlit("minimax");
    reveal_strlit("ollama");
    reveal_strlit("varlink");
    reveal_strlit("syntrop");
    lemma_ci_apart(kind, "varlink"@, "minimax"@, 0);
    lemma_ci_apart(kind, "syntrop"@, "minimax"@, 0);
    lemma_ci_apart(kind, "varlink"@, "ollama"@, 0);
    lemma_ci_apart(kind, "syntrop"@, "ollama"@, 0);
}

/// The token estimate of a text is its byte count divided by 3.8, rounded
/// up: the least count whose 3.8-fold covers the bytes.
pub proof fn law_token_estimate_rounds_up(bytes: nat)
    ensures
        19 * tokens_for_bytes(bytes) >= 5 * bytes,
        tokens_for_bytes(bytes) == 0 || 19 * (tokens_for_bytes(bytes) - 1) < 5 * bytes,
{
}

/// A reported pressure level is read whatever its ASCII case: `critical` and
/// `elevated` are those levels, anything else counts as normal.
pub proof fn law_pressure_level_by_name(s: Seq<char>)
    ensures
        eq_ascii_ci(s, "critical"@) ==> level_from_name(s) == PressureLevel::Critical,
        eq_ascii_ci(s, "elevated"@) ==> level_from_name(s) == PressureLevel::Elevated,
        !eq_ascii_ci(s, "critical"@) && !eq_ascii_ci(s, "elevated"@) ==> level_from_name(s)
            == PressureLevel::Normal,
{
    reveal_strlit("critical");
    reveal_strlit("elevated");
    lemma_ci_apart(s, "critical"@, "elevated"@, 0);
}

/// An OpenAI-compatible endpoint extends the base URL and ends in the
/// endpoint's own path: a base that already ends in it is kept, a base that
/// names an API version root gets the path appended, and any other base gets
/// `/v1` and the path.
pub proof fn law_openai_endpoint_extends_base(base: Seq<char>, leaf: Seq<char>)
    ensures
        has_prefix(openai_endpoint_spec(base, leaf), base),
        has_suffix(openai_endpoint_spec(base, leaf), leaf),
        !has_suffix(base, leaf) && versioned_root(base) ==> openai_endpoint_spec(base, leaf) == base
            + leaf,
        !has_suffix(base, leaf) && !versioned_root(base) ==> openai_endpoint_spec(base, leaf) == base
            + "/v1"@ + leaf,
{
    let e = openai_endpoint_spec(base, leaf);
    if has_suffix(base, leaf) {
        assert(e.subrange(0, base.len() as int) =~= base);
    } else if versioned_root(base) {
        assert(e.subrange(0, base.len() as int) =~= base);
        assert(e.subrange(e.len() - leaf.len(), e.len() as int) =~= leaf);
    } else {
        assert(e.subrange(0, base.len() as int) =~= base);
        assert(e.subrange(e.len() - leaf.len(), e.len() as int) =~= leaf);
    }
}

/// Removing trailing slashes leaves a prefix of the URL that does not end in
/// a slash, and what was removed is slashes only.
pub proof fn law_trailing_slashes_removed(s: Seq<char>)
    ensures
        has_prefix(s, trim_slashes_spec(s)),
        !(trim_slashes_spec(s).len() > 0 && trim_slashes_spec(s).last() == '/'),
        forall|i: int| trim_slashes_spec(s).len() <= i < s.len() ==> s[i] == '/',
    decreases s.len(),
{
    if s.len() > 0 && s.last() == '/' {
        law_trailing_slashes_removed(s.drop_last());
        let r = trim_slashes_spec(s);
        assert(s.subrange(0, r.len() as int) =~= s.drop_last().subrange(0, r.len() as int));
        assert forall|i: int| r.len() <= i < s.len() implies s[i] == '/' by {
            if i < s.len() - 1 {
                assert(s[i] == s.drop_last()[i]);
            }
        }
    } else {
        assert(s.subrange(0, s.len() as int) =~= s);
    }
}

/// A health probe that got no answer never counts as healthy; a 2xx answer
/// always does; a 401 answer never does (it reports a rejected key, except
/// from Ollama, which has no keys); 405 counts as up only from MiniMax, whose
/// probe is a GET on its chat endpoint.
pub proof fn law_health_verdicts(kind: AdapterKind, status: Option<u16>)
    ensures
        status is None ==> health_verdict_spec(kind, status) == HealthVerdict::Unhealthy,
        status matches Some(s) && 200 <= s <= 299 ==> health_verdict_spec(kind, status)
            == HealthVerdict::Healthy,
        status == Some(401u16) ==> health_verdict_spec(kind, status) == (if kind == AdapterKind::Ollama {
            HealthVerdict::Unhealthy
        } else {
            HealthVerdict::AuthRejected
        }),
        status == Some(405u16) ==> (health_verdict_spec(kind, status) == HealthVerdict::Healthy <==> kind
            == AdapterKind::MiniMax),
{
}

} // verus!
