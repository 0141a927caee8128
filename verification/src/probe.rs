//! Probing an endpoint for its models during setup: the URLs and header
//! used, how the HTTP status is judged, and which model ids the answer lists.
use vstd::prelude::*;
use vstd::string::*;
use crate::adapters::{bearer_value, trim_slashes_spec, trim_trailing_slashes};
use crate::models::opt_view;
use crate::setup::{names_view, opt_names_view, somes};
use crate::text::{contains_str, has_infix, trim, trim_seq};

verus! {

/// A model listing as read from an endpoint's JSON answer.
pub struct ModelListing {
    /// The `data` array (OpenAI shape), each element's `id` where it is a
    /// string; `None` where there is no such array.
    pub data: Option<Vec<Option<String>>>,
    /// The `models` array (Ollama shape), each element's `name` where it is a
    /// string; `None` where there is no such array.
    pub models: Option<Vec<Option<String>>>,
}

pub open spec fn listed(a: Option<Vec<Option<String>>>) -> Seq<Seq<char>> {
    match a {
        Some(v) => somes(opt_names_view(v@)),
        None => Seq::empty(),
    }
}

fn collect_listed(a: &Option<Vec<Option<String>>>) -> (r: Vec<String>)
    ensures
        names_view(r@) == listed(*a),
{
    let mut out: Vec<String> = Vec::new();
    match a {
        Some(v) => {
            let mut i: usize = 0;
            while i < v.len()
                invariant
                    i <= v@.len(),
                    names_view(out@) == somes(opt_names_view(v@).subrange(0, i as int)),
                decreases v.len() - i,
            {
                let ghost pre = opt_names_view(v@).subrange(0, i as int);
                let ghost post = opt_names_view(v@).subrange(0, i + 1);
                assert(post.drop_last() =~= pre);
                assert(post.last() == opt_view(v@[i as int]));
                let ghost before = out@;
                match &v[i] {
                    Some(x) => {
                        out.push(x.clone());
                        assert(names_view(out@) =~= names_view(before) + seq![x@]);
                    },
                    None => {
                        assert(somes(post) =~= somes(pre));
                    },
                }
                i = i + 1;
            }
            assert(opt_names_view(v@).subrange(0, v@.len() as int) =~= opt_names_view(v@));
        },
        None => {
            assert(names_view(out@) =~= Seq::<Seq<char>>::empty());
        },
    }
    out
}

/// The model ids of an OpenAI-shaped answer: `data[].id`.
pub fn parse_openai_model_ids(listing: &ModelListing) -> (r: Vec<String>)
    ensures
        names_view(r@) == listed(listing.data),
{
    collect_listed(&listing.data)
}

/// The model names of an Ollama-shaped answer: `models[].name`.
pub fn parse_ollama_model_ids(listing: &ModelListing) -> (r: Vec<String>)
    ensures
        names_view(r@) == listed(listing.models),
{
    collect_listed(&listing.models)
}

/// The message for an answer that lists nothing.
pub open spec fn no_models_message() -> Seq<char> {
    "Endpoint answered but listed no models"@
}

/// The ids a `/models` answer lists: the OpenAI shape where it lists any,
/// else the Ollama shape; an error where neither does.
pub fn listed_model_ids(listing: &ModelListing) -> (r: Result<Vec<String>, String>)
    ensures
        listed(listing.data).len() > 0 ==> (r matches Ok(ids) && names_view(ids@) == listed(
            listing.data,
        )),
        listed(listing.data).len() == 0 && listed(listing.models).len() > 0 ==> (r matches Ok(ids)
            && names_view(ids@) == listed(listing.models)),
        listed(listing.data).len() == 0 && listed(listing.models).len() == 0 ==> (r matches Err(e)
            && e@ == no_models_message()),
{
    let ids = parse_openai_model_ids(listing);
    if ids.len() > 0 {
        return Ok(ids);
    }
    let names = parse_ollama_model_ids(listing);
    if names.len() > 0 {
        Ok(names)
    } else {
        Err(String::from_str("Endpoint answered but listed no models"))
    }
}

/// The names an `/api/tags` answer lists (Ollama shape); an error where it
/// lists none.
pub fn tags_model_ids(listing: &ModelListing) -> (r: Result<Vec<String>, String>)
    ensures
        listed(listing.models).len() > 0 ==> (r matches Ok(ids) && names_view(ids@) == listed(
            listing.models,
        )),
        listed(listing.models).len() == 0 ==> (r matches Err(e) && e@ == no_models_message()),
{
    let names = parse_ollama_model_ids(listing);
    if names.len() > 0 {
        Ok(names)
    } else {
        Err(String::from_str("Endpoint answered but listed no models"))
    }
}

/// The model listing URL of an endpoint: its base URL without trailing
/// slashes, then `/models`.
pub fn models_url(base_url: &str) -> (r: String)
    ensures
        r@ == trim_slashes_spec(base_url@) + "/models"@,
{
    let mut r = trim_trailing_slashes(base_url);
    r.append("/models");
    r
}

/// The tag listing URL of a native Ollama server at `base` (already without
/// trailing slashes).
pub fn tags_url(base: &str) -> (r: String)
    ensures
        r@ == base@ + "/api/tags"@,
{
    let mut r = String::from_str(base);
    r.append("/api/tags");
    r
}

/// The `Authorization` header a probe sends: a bearer token for a key that
/// is not blank after trimming, none otherwise.
pub fn probe_authorization(api_key: Option<&str>) -> (r: Option<String>)
    ensures
        match api_key {
            Some(k) => if trim_seq(k@).len() > 0 {
                r matches Some(h) && h@ == "Bearer "@ + trim_seq(k@)
            } else {
                r is None
            },
            None => r is None,
        },
{
    match api_key {
        Some(k) => {
            let t = trim(k);
            if t.as_str().is_empty() {
                None
            } else {
                Some(bearer_value(k))
            }
        },
        None => None,
    }
}

/// What a probe does after the status line of its answer.
#[derive(Clone, Copy, PartialEq, Eq, Structural, Debug)]
pub enum ProbeStep {
    /// 401 or 403: the key was refused.
    KeyRejected,
    /// 404 from a base URL without `/v1`: ask the native Ollama tag list.
    TryTags,
    /// Any other status outside 2xx.
    Failed,
    /// A success: read the listing.
    ReadBody,
}

/// Judges the status of a `/models` answer from the endpoint at `base`
/// (without trailing slashes).
pub fn probe_step(status: u16, base: &str) -> (p: ProbeStep)
    ensures
        (status == 401 || status == 403) ==> p == ProbeStep::KeyRejected,
        status == 404 ==> p == if has_infix(base@, "/v1"@) {
            ProbeStep::Failed
        } else {
            ProbeStep::TryTags
        },
        !(status == 401 || status == 403 || status == 404) ==> p == if 200 <= status <= 299 {
            ProbeStep::ReadBody
        } else {
            ProbeStep::Failed
        },
{
    if status == 401 || status == 403 {
        ProbeStep::KeyRejected
    } else if status == 404 && !contains_str(base, "/v1") {
        ProbeStep::TryTags
    } else if 200 <= status && status <= 299 {
        ProbeStep::ReadBody
    } else {
        ProbeStep::Failed
    }
}

} // verus!
