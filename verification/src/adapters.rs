//! Provider protocol adapters: which adapter a provider gets, the endpoints it
//! talks to, how it reads health probes, and how the local varlink broker's
//! replies become chat completions.
use vstd::prelude::*;
use vstd::string::*;
use crate::config::ProviderConfig;
use crate::error::RouterError;
use crate::models::{
    ChatChoice, ChatCompletionChunk, ChatCompletionRequest, ChatCompletionResponse, ChatMessage,
    ChunkChoice, ChunkDelta, MessageContent, UsageInfo, content_text, text_tokens, tokens_for_bytes,
    utf8_len,
};
use crate::text::{chars_of, eq_ascii_ci, eq_ignore_ascii_case, has_prefix, has_suffix, ends_with, owned, str_eq, string_of_range, strip_prefix, trim, trim_seq};

verus! {

/// The protocol a provider speaks.
#[derive(Clone, Copy, PartialEq, Eq, Structural, Debug)]
pub enum AdapterKind {
    MiniMax,
    Ollama,
    VarlinkBridge,
    OpenAICompatible,
}

/// The adapter for a provider kind, compared without ASCII case; unknown
/// kinds speak the OpenAI-compatible protocol.
pub open spec fn adapter_kind_spec(kind: Seq<char>) -> AdapterKind {
    if eq_ascii_ci(kind, "minimax"@) {
        AdapterKind::MiniMax
    } else if eq_ascii_ci(kind, "ollama"@) {
        AdapterKind::Ollama
    } else if eq_ascii_ci(kind, "varlink"@) || eq_ascii_ci(kind, "syntrop"@) {
        AdapterKind::VarlinkBridge
    } else {
        AdapterKind::OpenAICompatible
    }
}

pub fn adapter_kind(kind: &str) -> (k: AdapterKind)
    ensures
        k == adapter_kind_spec(kind@),
{
    if eq_ignore_ascii_case(kind, "minimax") {
        AdapterKind::MiniMax
    } else if eq_ignore_ascii_case(kind, "ollama") {
        AdapterKind::Ollama
    } else if eq_ignore_ascii_case(kind, "varlink") || eq_ignore_ascii_case(kind, "syntrop") {
        AdapterKind::VarlinkBridge
    } else {
        AdapterKind::OpenAICompatible
    }
}

/// `s` with every trailing `/` removed (`str::trim_end_matches('/')`).
pub open spec fn trim_slashes_spec(s: Seq<char>) -> Seq<char>
    decreases s.len(),
{
    if s.len() > 0 && s.last() == '/' {
        trim_slashes_spec(s.drop_last())
    } else {
        s
    }
}

pub fn trim_trailing_slashes(s: &str) -> (r: String)
    ensures
        r@ == trim_slashes_spec(s@),
{
    let v = chars_of(s);
    let mut end = v.len();
    assert(v@.take(v@.len() as int) =~= v@);
    while end > 0 && v[end - 1] == '/'
        invariant
            v@ == s@,
            end <= v@.len(),
            trim_slashes_spec(v@.take(end as int)) == trim_slashes_spec(s@),
        decreases end,
    {
        assert(v@.take(end as int).drop_last() =~= v@.take(end - 1));
        end = end - 1;
    }
    assert(trim_slashes_spec(v@.take(end as int)) == v@.take(end as int));
    assert(v@.subrange(0, end as int) =~= v@.take(end as int));
    string_of_range(&v, 0, end)
}

/// Base URLs that already name an API version root.
pub open spec fn versioned_root(base: Seq<char>) -> bool {
    has_suffix(base, "/v1"@) || has_suffix(base, "/openai"@) || has_suffix(base, "/v1beta"@)
        || has_suffix(base, "/v1alpha"@)
}

fn is_versioned_root(base: &str) -> (b: bool)
    ensures
        b == versioned_root(base@),
{
    ends_with(base, "/v1") || ends_with(base, "/openai") || ends_with(base, "/v1beta") || ends_with(
        base,
        "/v1alpha",
    )
}

fn join2(a: &str, b: &str) -> (r: String)
    ensures
        r@ == a@ + b@,
{
    let mut r = owned(a);
    r.append(b);
    r
}

/// The chat completions endpoint of an OpenAI-compatible provider whose base
/// URL (trailing slashes removed) is `base`.
pub open spec fn openai_endpoint_spec(base: Seq<char>, leaf: Seq<char>) -> Seq<char> {
    if has_suffix(base, leaf) {
        base
    } else if versioned_root(base) {
        base + leaf
    } else {
        base + "/v1"@ + leaf
    }
}

pub fn openai_chat_endpoint(base: &str) -> (r: String)
    ensures
        r@ == openai_endpoint_spec(base@, "/chat/completions"@),
{
    proof {
        reveal_strlit("/v1");
        reveal_strlit("/chat/completions");
        reveal_strlit("/v1/chat/completions");
        assert(base@ + "/v1"@ + "/chat/completions"@ =~= base@ + "/v1/chat/completions"@);
    }
    if ends_with(base, "/chat/completions") {
        owned(base)
    } else if is_versioned_root(base) {
        join2(base, "/chat/completions")
    } else {
        join2(base, "/v1/chat/completions")
    }
}

pub fn openai_models_endpoint(base: &str) -> (r: String)
    ensures
        r@ == openai_endpoint_spec(base@, "/models"@),
{
    proof {
        reveal_strlit("/v1");
        reveal_strlit("/models");
        reveal_strlit("/v1/models");
        assert(base@ + "/v1"@ + "/models"@ =~= base@ + "/v1/models"@);
    }
    if ends_with(base, "/models") {
        owned(base)
    } else if is_versioned_root(base) {
        join2(base, "/models")
    } else {
        join2(base, "/v1/models")
    }
}

/// The chat endpoint of a MiniMax provider.
pub open spec fn minimax_endpoint_spec(base: Seq<char>) -> Seq<char> {
    if has_suffix(base, "/chat/completions"@) || has_suffix(base, "/chatcompletion_v2"@) {
        base
    } else if has_suffix(base, "/v1"@) {
        base + "/chat/completions"@
    } else {
        base + "/v1/chat/completions"@
    }
}

pub fn minimax_endpoint(base: &str) -> (r: String)
    ensures
        r@ == minimax_endpoint_spec(base@),
{
    if ends_with(base, "/chat/completions") || ends_with(base, "/chatcompletion_v2") {
        owned(base)
    } else if ends_with(base, "/v1") {
        join2(base, "/chat/completions")
    } else {
        join2(base, "/v1/chat/completions")
    }
}

/// Ollama's OpenAI-compatible chat endpoint.
pub fn ollama_chat_endpoint(base: &str) -> (r: String)
    ensures
        r@ == base@ + "/v1/chat/completions"@,
{
    join2(base, "/v1/chat/completions")
}

/// Ollama's model listing endpoint.
pub fn ollama_tags_endpoint(base: &str) -> (r: String)
    ensures
        r@ == base@ + "/api/tags"@,
{
    join2(base, "/api/tags")
}

/// Ollama's version endpoint, used as its health probe.
pub fn ollama_version_endpoint(base: &str) -> (r: String)
    ensures
        r@ == base@ + "/api/version"@,
{
    join2(base, "/api/version")
}

/// The `Authorization` header value for an API key.
pub fn bearer_value(key: &str) -> (r: String)
    ensures
        r@ == "Bearer "@ + trim_seq(key@),
{
    let t = trim(key);
    join2("Bearer ", t.as_str())
}

/// Request fields that client-supplied extras may not override.
pub open spec fn forwards_extra_spec(key: Seq<char>) -> bool {
    key != "model"@ && key != "messages"@ && key != "stream"@ && key != "tier"@
}

/// Whether an extra request field is passed on to the provider.
pub fn forwards_extra_key(key: &str) -> (b: bool)
    ensures
        b == forwards_extra_spec(key@),
{
    !str_eq(key, "model") && !str_eq(key, "messages") && !str_eq(key, "stream") && !str_eq(key, "tier")
}

/// The output-token limits sent upstream as (`max_tokens`,
/// `max_completion_tokens`): OpenAI-compatible providers get both fields as
/// given; the others get `max_tokens`, else `max_completion_tokens`, as
/// `max_tokens`.
pub fn payload_token_limits(kind: AdapterKind, max_tokens: Option<usize>, max_completion_tokens: Option<usize>) -> (r: (Option<usize>, Option<usize>))
    ensures
        kind == AdapterKind::OpenAICompatible ==> r == (max_tokens, max_completion_tokens),
        kind != AdapterKind::OpenAICompatible ==> r == (
            match max_tokens {
                Some(t) => Some(t),
                None => max_completion_tokens,
            },
            None::<usize>,
        ),
{
    match kind {
        AdapterKind::OpenAICompatible => (max_tokens, max_completion_tokens),
        _ => (
            match max_tokens {
                Some(t) => Some(t),
                None => max_completion_tokens,
            },
            None,
        ),
    }
}

/// How a health probe came back.
#[derive(Clone, Copy, PartialEq, Eq, Structural, Debug)]
pub enum HealthVerdict {
    Healthy,
    Unhealthy,
    /// The provider rejected the API key (HTTP 401).
    AuthRejected,
}

pub open spec fn is_success_status(s: u16) -> bool {
    200 <= s <= 299
}

/// The verdict on a probe that answered with HTTP `status`, or that got no
/// answer (`None`). OpenAI-compatible providers are probed on their models
/// endpoint, MiniMax on its chat endpoint (where 405 also counts as up), and
/// Ollama on its version endpoint (where any non-success is down).
pub open spec fn health_verdict_spec(kind: AdapterKind, status: Option<u16>) -> HealthVerdict {
    match status {
        None => HealthVerdict::Unhealthy,
        Some(s) => match kind {
            AdapterKind::Ollama => if is_success_status(s) {
                HealthVerdict::Healthy
            } else {
                HealthVerdict::Unhealthy
            },
            AdapterKind::MiniMax => if is_success_status(s) || s == 405 {
                HealthVerdict::Healthy
            } else if s == 401 {
                HealthVerdict::AuthRejected
            } else {
                HealthVerdict::Unhealthy
            },
            _ => if is_success_status(s) {
                HealthVerdict::Healthy
            } else if s == 401 {
                HealthVerdict::AuthRejected
            } else {
                HealthVerdict::Unhealthy
            },
        },
    }
}

pub fn health_verdict(kind: AdapterKind, status: Option<u16>) -> (v: HealthVerdict)
    ensures
        v == health_verdict_spec(kind, status),
{
    match status {
        None => HealthVerdict::Unhealthy,
        Some(s) => {
            let ok = 200 <= s && s <= 299;
            match kind {
                AdapterKind::Ollama => if ok {
                    HealthVerdict::Healthy
                } else {
                    HealthVerdict::Unhealthy
                },
                AdapterKind::MiniMax => if ok || s == 405 {
                    HealthVerdict::Healthy
                } else if s == 401 {
                    HealthVerdict::AuthRejected
                } else {
                    HealthVerdict::Unhealthy
                },
                _ => if ok {
                    HealthVerdict::Healthy
                } else if s == 401 {
                    HealthVerdict::AuthRejected
                } else {
                    HealthVerdict::Unhealthy
                },
            }
        },
    }
}

/// The models a provider reports: those it listed, or the configured ones
/// where it listed none.
pub fn listed_or_configured(listed: Vec<String>, configured: &Vec<String>) -> (r: Vec<String>)
    ensures
        listed@.len() > 0 ==> r@ == listed@,
        listed@.len() == 0 ==> r@ == configured@,
{
    if listed.len() > 0 {
        listed
    } else {
        configured.clone()
    }
}

/// The provider that forwards chats to the local inference broker over
/// Varlink.
pub struct VarlinkBridgeAdapter {
    pub id: String,
    pub socket_path: String,
    pub configured_models: Vec<String>,
}

impl VarlinkBridgeAdapter {
    /// The bridge for a provider; a `varlink:` prefix on the base URL is dropped
    /// to give the socket path.
    pub fn new(cfg: &ProviderConfig) -> (a: Self)
        ensures
            a.id@ == cfg.id@,
            a.socket_path@ == (if has_prefix(cfg.base_url@, "varlink:"@) {
                cfg.base_url@.subrange("varlink:"@.len() as int, cfg.base_url@.len() as int)
            } else {
                cfg.base_url@
            }),
            a.configured_models@.len() == cfg.models@.len(),
            forall|k: int| 0 <= k < cfg.models@.len() ==> #[trigger] a.configured_models@[k]@ == cfg.models@[k].name@,
    {
        let socket_path = match strip_prefix(cfg.base_url.as_str(), "varlink:") {
            Some(rest) => rest,
            None => cfg.base_url.clone(),
        };
        let mut names: Vec<String> = Vec::new();
        let mut i: usize = 0;
        while i < cfg.models.len()
            invariant
                i <= cfg.models@.len(),
                names@.len() == i,
                forall|k: int| 0 <= k < i ==> #[trigger] names@[k]@ == cfg.models@[k].name@,
            decreases cfg.models.len() - i,
        {
            names.push(cfg.models[i].name.clone());
            i = i + 1;
        }
        VarlinkBridgeAdapter { id: cfg.id.clone(), socket_path, configured_models: names }
    }
}

/// The prompt the bridge sends: each message as `role: content` on a line.
pub open spec fn bridge_prompt_spec(ms: Seq<ChatMessage>) -> Seq<char>
    decreases ms.len(),
{
    if ms.len() == 0 {
        Seq::empty()
    } else {
        bridge_prompt_spec(ms.drop_last()) + ms.last().role@ + ": "@ + content_text(ms.last().content)
            + "\n"@
    }
}

pub fn extract_user_prompt(req: &ChatCompletionRequest) -> (p: String)
    ensures
        p@ == bridge_prompt_spec(req.messages@),
{
    let mut p = String::new();
    let mut i: usize = 0;
    while i < req.messages.len()
        invariant
            i <= req.messages@.len(),
            p@ == bridge_prompt_spec(req.messages@.take(i as int)),
        decreases req.messages.len() - i,
    {
        assert(req.messages@.take(i + 1).drop_last() =~= req.messages@.take(i as int));
        let m = &req.messages[i];
        let content = m.content_as_str();
        p.append(m.role.as_str());
        p.append(": ");
        p.append(content.as_str());
        p.append("\n");
        i = i + 1;
    }
    assert(req.messages@.take(req.messages@.len() as int) =~= req.messages@);
    p
}

/// What the bridge reads of one broker reply.
pub struct BrokerReply {
    pub error: Option<String>,
    pub chunk: Option<String>,
    pub continues: Option<bool>,
}

pub open spec fn reply_continues(r: BrokerReply) -> bool {
    match r.continues {
        Some(b) => b,
        None => false,
    }
}

/// Collects a streamed broker answer into one completion text.
pub struct BridgeCollector {
    pub text: String,
    pub finished: bool,
}

impl BridgeCollector {
    pub fn new() -> (c: Self)
        ensures
            c.text@.len() == 0,
            !c.finished,
    {
        BridgeCollector { text: String::new(), finished: false }
    }

    /// Takes one reply: an error ends the answer with that error; a chunk is
    /// appended; a reply that does not continue finishes the answer.
    pub fn absorb(&mut self, reply: &BrokerReply) -> (r: Result<(), RouterError>)
        ensures
            match reply.error {
                Some(e) => r matches Err(RouterError::Varlink(m)) && m@ == "Varlink error: "@ + e@
                    && final(self).text@ == old(self).text@ && final(self).finished == old(self).finished,
                None => {
                    &&& r is Ok
                    &&& final(self).text@ == old(self).text@ + match reply.chunk {
                        Some(c) => c@,
                        None => Seq::empty(),
                    }
                    &&& final(self).finished == !reply_continues(*reply)
                },
            },
    {
        if let Some(e) = &reply.error {
            return Err(RouterError::Varlink(join2("Varlink error: ", e.as_str())));
        }
        if let Some(c) = &reply.chunk {
            self.text.append(c.as_str());
        } else {
            assert(self.text@ =~= self.text@ + Seq::<char>::empty());
        }
        let continues = match reply.continues {
            Some(b) => b,
            None => false,
        };
        self.finished = !continues;
        Ok(())
    }
}

/// The non-streaming completion the bridge builds from the collected text.
pub fn bridge_response(id: String, created: u64, model: &str, text: String, prompt_tokens: usize) -> (r: Result<ChatCompletionResponse, RouterError>)
    ensures
        match r {
            Ok(resp) => {
                &&& resp.id == id
                &&& resp.object@ == "chat.completion"@
                &&& resp.created == created
                &&& resp.model@ == model@
                &&& resp.choices@.len() == 1
                &&& resp.choices@[0].index == 0
                &&& resp.choices@[0].message.role@ == "assistant"@
                &&& resp.choices@[0].message.content == MessageContent::Text(text)
                &&& resp.choices@[0].message.name is None
                &&& resp.choices@[0].finish_reason matches Some(f) && f@ == "stop"@
                &&& resp.usage matches Some(u) && u.prompt_tokens == prompt_tokens
                    && u.completion_tokens == tokens_for_bytes(utf8_len(text@))
                    && u.total_tokens == prompt_tokens + u.completion_tokens
            },
            Err(e) => utf8_len(text@) > usize::MAX || prompt_tokens + tokens_for_bytes(utf8_len(text@))
                > usize::MAX,
        },
{
    let completion = match text_tokens(text.as_str()) {
        Some(c) => c,
        None => {
            return Err(RouterError::Other(String::from_str("completion text too long")));
        },
    };
    if completion > usize::MAX - prompt_tokens {
        return Err(RouterError::Other(String::from_str("token count overflows")));
    }
    let mut choices: Vec<ChatChoice> = Vec::new();
    choices.push(
        ChatChoice {
            index: 0,
            message: ChatMessage {
                role: String::from_str("assistant"),
                content: MessageContent::Text(text),
                name: None,
            },
            finish_reason: Some(String::from_str("stop")),
        },
    );
    Ok(
        ChatCompletionResponse {
            id,
            object: String::from_str("chat.completion"),
            created,
            model: owned(model),
            choices,
            usage: Some(
                UsageInfo {
                    prompt_tokens,
                    completion_tokens: completion,
                    total_tokens: prompt_tokens + completion,
                },
            ),
        },
    )
}

/// What the streaming bridge does with one broker reply.
pub enum StreamEvent {
    /// Report this error and end the stream.
    Fail(RouterError),
    /// Send this chunk; end the stream after it when `last`.
    Chunk { content: String, last: bool },
    /// Send nothing; end the stream when `last`.
    Quiet { last: bool },
}

pub fn stream_event(reply: &BrokerReply) -> (e: StreamEvent)
    ensures
        match reply.error {
            Some(err) => e matches StreamEvent::Fail(RouterError::Varlink(m)) && m@
                == "Varlink stream error: "@ + err@,
            None => match reply.chunk {
                Some(c) => e matches StreamEvent::Chunk { content, last } && content@ == c@ && last
                    == !reply_continues(*reply),
                None => e matches StreamEvent::Quiet { last } && last == !reply_continues(*reply),
            },
        },
{
    if let Some(err) = &reply.error {
        return StreamEvent::Fail(RouterError::Varlink(join2("Varlink stream error: ", err.as_str())));
    }
    let continues = match reply.continues {
        Some(b) => b,
        None => false,
    };
    match &reply.chunk {
        Some(c) => StreamEvent::Chunk { content: c.clone(), last: !continues },
        None => StreamEvent::Quiet { last: !continues },
    }
}

/// One streamed completion chunk: a single choice whose delta carries the
/// content, finished with `stop` on the last chunk.
pub fn stream_chunk(id: &str, created: u64, model: &str, content: String, last: bool) -> (c: ChatCompletionChunk)
    ensures
        c.id@ == id@,
        c.object@ == "chat.completion.chunk"@,
        c.created == created,
        c.model@ == model@,
        c.choices@.len() == 1,
        c.choices@[0].index == 0,
        c.choices@[0].delta.role is None,
        c.choices@[0].delta.content == Some(content),
        last ==> (c.choices@[0].finish_reason matches Some(f) && f@ == "stop"@),
        !last ==> c.choices@[0].finish_reason is None,
{
    let mut choices: Vec<ChunkChoice> = Vec::new();
    choices.push(
        ChunkChoice {
            index: 0,
            delta: ChunkDelta { role: None, content: Some(content) },
            finish_reason: if last {
                Some(String::from_str("stop"))
            } else {
                None
            },
        },
    );
    ChatCompletionChunk {
        id: owned(id),
        object: String::from_str("chat.completion.chunk"),
        created,
        model: owned(model),
        choices,
    }
}

/// A server-sent event carrying one JSON document.
pub fn sse_event(json: &str) -> (r: String)
    ensures
        r@ == "data: "@ + json@ + "\n\n"@,
{
    let mut r = String::from_str("data: ");
    r.append(json);
    r.append("\n\n");
    r
}

/// The event that closes a completion stream.
pub fn sse_done() -> (r: String)
    ensures
        r@ == "data: [DONE]\n\n"@,
{
    String::from_str("data: [DONE]\n\n")
}

} // verus!
