//! The chat completion wire model and its token estimates.
use vstd::prelude::*;
use vstd::string::*;
use crate::text::{chars_of, has_prefix, push_char, starts_with, str_eq, strip_prefix};
use crate::error::RouterError;

verus! {

/// Message content as the router reads it: a plain string, a list of content
/// parts (the `text` of each part, `None` where a part has no string `text`),
/// or any other JSON value in its compact JSON rendering.
pub enum MessageContent {
    Text(String),
    Parts(Vec<Option<String>>),
    Other(String),
}

pub struct ChatMessage {
    pub role: String,
    pub content: MessageContent,
    pub name: Option<String>,
}

/// The text of a list of content parts: each present text followed by a space.
pub open spec fn parts_text(parts: Seq<Option<String>>) -> Seq<char>
    decreases parts.len(),
{
    if parts.len() == 0 {
        Seq::empty()
    } else {
        parts_text(parts.drop_last()) + match parts.last() {
            Some(t) => t@.push(' '),
            None => Seq::empty(),
        }
    }
}

pub open spec fn content_text(c: MessageContent) -> Seq<char> {
    match c {
        MessageContent::Text(s) => s@,
        MessageContent::Parts(ps) => parts_text(ps@),
        MessageContent::Other(r) => r@,
    }
}

/// Bytes that one character takes in UTF-8.
pub open spec fn utf8_width(c: char) -> nat {
    let u = c as u32;
    if u < 0x80 {
        1
    } else if u < 0x800 {
        2
    } else if u < 0x10000 {
        3
    } else {
        4
    }
}

/// Length in UTF-8 bytes (`str::len`).
pub open spec fn utf8_len(s: Seq<char>) -> nat
    decreases s.len(),
{
    if s.len() == 0 {
        0
    } else {
        utf8_len(s.drop_last()) + utf8_width(s.last())
    }
}

proof fn lemma_utf8_len_push(s: Seq<char>, c: char)
    ensures
        utf8_len(s.push(c)) == utf8_len(s) + utf8_width(c),
{
    assert(s.push(c).drop_last() =~= s);
}

pub proof fn lemma_utf8_len_concat(a: Seq<char>, b: Seq<char>)
    ensures
        utf8_len(a + b) == utf8_len(a) + utf8_len(b),
    decreases b.len(),
{
    if b.len() == 0 {
        assert(a + b =~= a);
    } else {
        lemma_utf8_len_concat(a, b.drop_last());
        assert((a + b).drop_last() =~= a + b.drop_last());
    }
}

proof fn lemma_utf8_len_prefix(s: Seq<char>, k: int)
    requires
        0 <= k <= s.len(),
    ensures
        utf8_len(s.subrange(0, k)) <= utf8_len(s),
{
    lemma_utf8_len_concat(s.subrange(0, k), s.subrange(k, s.len() as int));
    assert(s.subrange(0, k) + s.subrange(k, s.len() as int) =~= s);
}

/// Length in UTF-8 bytes of a string slice, `None` where it exceeds `usize`.
pub fn utf8_byte_len(s: &str) -> (n: Option<usize>)
    ensures
        n is Some <==> utf8_len(s@) <= usize::MAX,
        n matches Some(k) ==> k == utf8_len(s@),
{
    let v = chars_of(s);
    let mut n: usize = 0;
    let mut i: usize = 0;
    while i < v.len()
        invariant
            v@ == s@,
            i <= v@.len(),
            n == utf8_len(s@.subrange(0, i as int)),
        decreases v.len() - i,
    {
        let ghost pre = s@.subrange(0, i as int);
        assert(s@.subrange(0, i + 1) =~= pre.push(s@[i as int]));
        proof {
            lemma_utf8_len_push(pre, s@[i as int]);
        }
        let u = v[i] as u32;
        let w: usize = if u < 0x80 {
            1
        } else if u < 0x800 {
            2
        } else if u < 0x10000 {
            3
        } else {
            4
        };
        if n > usize::MAX - w {
            proof {
                lemma_utf8_len_prefix(s@, i + 1);
            }
            return None;
        }
        n = n + w;
        i = i + 1;
    }
    assert(s@.subrange(0, v@.len() as int) =~= s@);
    Some(n)
}

impl ChatMessage {
    /// The message content as plain text.
    pub fn content_as_str(&self) -> (r: String)
        ensures
            r@ == content_text(self.content),
    {
        match &self.content {
            MessageContent::Text(s) => s.clone(),
            MessageContent::Parts(parts) => {
                let mut out = String::new();
                let mut i: usize = 0;
                while i < parts.len()
                    invariant
                        i <= parts@.len(),
                        out@ == parts_text(parts@.subrange(0, i as int)),
                    decreases parts.len() - i,
                {
                    assert(parts@.subrange(0, i + 1).drop_last() =~= parts@.subrange(0, i as int));
                    match &parts[i] {
                        Some(t) => {
                            out.append(t.as_str());
                            push_char(&mut out, ' ');
                            assert(out@ =~= parts_text(parts@.subrange(0, i as int)) + t@.push(' '));
                        },
                        None => {
                            assert(out@ =~= parts_text(parts@.subrange(0, i as int)) + Seq::<char>::empty());
                        },
                    }
                    i = i + 1;
                }
                assert(parts@.subrange(0, parts@.len() as int) =~= parts@);
                out
            },
            MessageContent::Other(r) => r.clone(),
        }
    }
}

/// Bytes of prompt text that one message accounts for: its role, its content
/// and four bytes of framing.
pub open spec fn message_bytes(m: ChatMessage) -> nat {
    utf8_len(m.role@) + 4 + utf8_len(content_text(m.content))
}

pub open spec fn messages_bytes(ms: Seq<ChatMessage>) -> nat
    decreases ms.len(),
{
    if ms.len() == 0 {
        0
    } else {
        messages_bytes(ms.drop_last()) + message_bytes(ms.last())
    }
}

/// Tokens estimated for `bytes` bytes of text at 3.8 bytes per token, rounded up.
pub open spec fn tokens_for_bytes(bytes: nat) -> nat {
    (5 * bytes + 18) / 19
}

/// Completion tokens a request asks for: `max_completion_tokens`, else
/// `max_tokens`, else 2048.
pub open spec fn requested_completion(max_completion_tokens: Option<usize>, max_tokens: Option<usize>) -> nat {
    match max_completion_tokens {
        Some(n) => n as nat,
        None => match max_tokens {
            Some(n) => n as nat,
            None => 2048,
        },
    }
}

pub fn completion_budget(max_completion_tokens: Option<usize>, max_tokens: Option<usize>) -> (n: usize)
    ensures
        n == requested_completion(max_completion_tokens, max_tokens),
{
    match max_completion_tokens {
        Some(n) => n,
        None => match max_tokens {
            Some(n) => n,
            None => 2048,
        },
    }
}

/// `tokens_for_bytes` computed without intermediate overflow.
pub fn tokens_for(bytes: usize) -> (t: usize)
    ensures
        t == tokens_for_bytes(bytes as nat),
{
    let q = bytes / 19;
    let r = bytes % 19;
    assert(5 * q + (5 * r + 18) / 19 == (5 * bytes + 18) / 19 && 5 * q + (5 * r + 18) / 19 <= bytes)
        by (nonlinear_arith)
        requires
            q == bytes / 19,
            r == bytes % 19,
            bytes >= 0,
    {
        assert(bytes == 19 * q + r);
        assert(5 * bytes + 18 == 19 * (5 * q) + (5 * r + 18));
    }
    5 * q + (5 * r + 18) / 19
}

/// Tokens that the varlink bridge reports for a completion text.
pub fn text_tokens(text: &str) -> (t: Option<usize>)
    ensures
        t is Some <==> utf8_len(text@) <= usize::MAX,
        t matches Some(k) ==> k == tokens_for_bytes(utf8_len(text@)),
{
    match utf8_byte_len(text) {
        Some(b) => Some(tokens_for(b)),
        None => None,
    }
}

/// The routing target a model name names: `router:<tier>` gives the tier, and
/// the bare names `fast` and `hard` name themselves.
pub open spec fn tier_of_model(model: Seq<char>) -> Option<Seq<char>> {
    if has_prefix(model, "router:"@) {
        Some(model.subrange("router:"@.len() as int, model.len() as int))
    } else if model == "fast"@ || model == "hard"@ {
        Some(model)
    } else {
        None
    }
}

pub struct ChatCompletionRequest {
    pub model: String,
    pub messages: Vec<ChatMessage>,
    pub max_tokens: Option<usize>,
    pub max_completion_tokens: Option<usize>,
    pub stream: Option<bool>,
    pub tier: Option<String>,
}

pub open spec fn opt_view(o: Option<String>) -> Option<Seq<char>> {
    match o {
        Some(s) => Some(s@),
        None => None,
    }
}

impl ChatCompletionRequest {
    pub open spec fn prompt_bytes_spec(&self) -> nat {
        messages_bytes(self.messages@)
    }

    /// The estimate of prompt tokens: at least one.
    pub open spec fn prompt_tokens_spec(&self) -> nat {
        let t = tokens_for_bytes(self.prompt_bytes_spec());
        if t >= 1 {
            t
        } else {
            1
        }
    }

    pub open spec fn requested_tier_spec(&self) -> Option<Seq<char>> {
        match self.tier {
            Some(t) => Some(t@),
            None => tier_of_model(self.model@),
        }
    }

    /// Bytes of prompt text, `None` where the count exceeds `usize`.
    pub fn prompt_bytes(&self) -> (n: Option<usize>)
        ensures
            n is Some <==> self.prompt_bytes_spec() <= usize::MAX,
            n matches Some(k) ==> k == self.prompt_bytes_spec(),
    {
        let mut total: usize = 0;
        let mut i: usize = 0;
        while i < self.messages.len()
            invariant
                i <= self.messages@.len(),
                total == messages_bytes(self.messages@.subrange(0, i as int)),
            decreases self.messages.len() - i,
        {
            let ghost pre = self.messages@.subrange(0, i as int);
            assert(self.messages@.subrange(0, i + 1).drop_last() =~= pre);
            proof {
                lemma_messages_bytes_prefix(self.messages@, i + 1);
            }
            let m = &self.messages[i];
            let content = m.content_as_str();
            let rb = utf8_byte_len(m.role.as_str());
            let cb = utf8_byte_len(content.as_str());
            match (rb, cb) {
                (Some(r), Some(c)) => {
                    if r > usize::MAX - 4 || c > usize::MAX - 4 - r || total > usize::MAX - 4 - r - c {
                        return None;
                    }
                    total = total + r + 4 + c;
                },
                _ => {
                    return None;
                },
            }
            i = i + 1;
        }
        assert(self.messages@.subrange(0, self.messages@.len() as int) =~= self.messages@);
        Some(total)
    }

    /// Estimated prompt tokens: about 3.8 bytes of text per token, at least one.
    pub fn estimate_prompt_tokens(&self) -> (t: usize)
        requires
            self.prompt_bytes_spec() <= usize::MAX,
        ensures
            t == self.prompt_tokens_spec(),
    {
        match self.prompt_bytes() {
            Some(b) => {
                let t = tokens_for(b);
                if t >= 1 {
                    t
                } else {
                    1
                }
            },
            None => {
                assert(false);
                1
            },
        }
    }

    /// Estimated context length: prompt tokens plus the completion budget.
    pub fn estimate_total_tokens(&self) -> (t: usize)
        requires
            self.prompt_bytes_spec() <= usize::MAX,
            self.prompt_tokens_spec() + requested_completion(self.max_completion_tokens, self.max_tokens)
                <= usize::MAX,
        ensures
            t == self.prompt_tokens_spec() + requested_completion(
                self.max_completion_tokens,
                self.max_tokens,
            ),
    {
        let p = self.estimate_prompt_tokens();
        let c = completion_budget(self.max_completion_tokens, self.max_tokens);
        p + c
    }

    /// The difficulty tier the request asks for: its `tier` field, else the tier
    /// that its model name names.
    pub fn requested_tier(&self) -> (r: Option<String>)
        ensures
            opt_view(r) == self.requested_tier_spec(),
    {
        match &self.tier {
            Some(t) => Some(t.clone()),
            None => {
                proof {
                    reveal_strlit("router:");
                    reveal_strlit("fast");
                    reveal_strlit("hard");
                }
                match strip_prefix(self.model.as_str(), "router:") {
                    Some(rest) => Some(rest),
                    None => {
                        if str_eq(self.model.as_str(), "fast") || str_eq(self.model.as_str(), "hard") {
                            Some(self.model.clone())
                        } else {
                            None
                        }
                    },
                }
            },
        }
    }
}

proof fn lemma_messages_bytes_prefix(ms: Seq<ChatMessage>, k: int)
    requires
        0 <= k <= ms.len(),
    ensures
        messages_bytes(ms.subrange(0, k)) <= messages_bytes(ms),
    decreases ms.len() - k,
{
    if k < ms.len() {
        lemma_messages_bytes_prefix(ms, k + 1);
        assert(ms.subrange(0, k + 1).drop_last() =~= ms.subrange(0, k));
    } else {
        assert(ms.subrange(0, k) =~= ms);
    }
}

pub struct UsageInfo {
    pub prompt_tokens: usize,
    pub completion_tokens: usize,
    pub total_tokens: usize,
}

pub struct ChatChoice {
    pub index: usize,
    pub message: ChatMessage,
    pub finish_reason: Option<String>,
}

pub struct ChatCompletionResponse {
    pub id: String,
    pub object: String,
    pub created: u64,
    pub model: String,
    pub choices: Vec<ChatChoice>,
    pub usage: Option<UsageInfo>,
}

pub struct ChunkDelta {
    pub role: Option<String>,
    pub content: Option<String>,
}

pub struct ChunkChoice {
    pub index: usize,
    pub delta: ChunkDelta,
    pub finish_reason: Option<String>,
}

pub struct ChatCompletionChunk {
    pub id: String,
    pub object: String,
    pub created: u64,
    pub model: String,
    pub choices: Vec<ChunkChoice>,
}

pub struct ModelItem {
    pub id: String,
    pub object: String,
    pub created: u64,
    pub owned_by: String,
}

pub struct ModelListResponse {
    pub object: String,
    pub data: Vec<ModelItem>,
}

/// Default context window of a configured model.
pub fn default_max_context() -> (n: usize)
    ensures
        n == 32768,
{
    32768
}

} // verus!
