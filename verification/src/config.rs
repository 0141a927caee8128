//! Daemon settings, configuration defaults, and the identity every configured
//! provider is given.
use vstd::prelude::*;
use vstd::string::*;

verus! {

pub fn default_listen_tcp() -> (s: String)
    ensures
        s@ == "127.0.0.1:32768"@,
{
    String::from_str("127.0.0.1:32768")
}

pub fn default_listen_unix() -> (s: String)
    ensures
        s@ == "/run/syntrop/router.sock"@,
{
    String::from_str("/run/syntrop/router.sock")
}

pub fn default_varlink_socket() -> (s: String)
    ensures
        s@ == "/run/syntrop/io.syntrop.Router1"@,
{
    String::from_str("/run/syntrop/io.syntrop.Router1")
}

pub fn default_inferenced_socket() -> (s: String)
    ensures
        s@ == "/run/syntrop/io.syntrop.Inference1"@,
{
    String::from_str("/run/syntrop/io.syntrop.Inference1")
}

pub fn default_log_level() -> (s: String)
    ensures
        s@ == "info"@,
{
    String::from_str("info")
}

/// Where the daemon listens and whom it asks for memory pressure.
pub struct DaemonConfig {
    pub listen_tcp: String,
    pub listen_unix: String,
    pub varlink_socket: String,
    pub inferenced_socket: String,
    pub log_level: String,
}

impl Default for DaemonConfig {
    fn default() -> (c: Self)
        ensures
            c.listen_tcp@ == "127.0.0.1:32768"@,
            c.listen_unix@ == "/run/syntrop/router.sock"@,
            c.varlink_socket@ == "/run/syntrop/io.syntrop.Router1"@,
            c.inferenced_socket@ == "/run/syntrop/io.syntrop.Inference1"@,
            c.log_level@ == "info"@,
    {
        DaemonConfig {
            listen_tcp: default_listen_tcp(),
            listen_unix: default_listen_unix(),
            varlink_socket: default_varlink_socket(),
            inferenced_socket: default_inferenced_socket(),
            log_level: default_log_level(),
        }
    }
}

/// Longest latency the thresholds allow by default, in milliseconds.
pub fn default_max_latency() -> (n: u64)
    ensures
        n == 15000,
{
    15000
}

/// Failovers after the first dispatch, by default.
pub fn default_max_retries() -> (n: usize)
    ensures
        n == 2,
{
    2
}

/// Resident memory target of the daemon, in MiB.
pub fn default_rss_limit_mb() -> (n: usize)
    ensures
        n == 15,
{
    15
}

pub fn default_kind_str() -> (s: String)
    ensures
        s@ == "openai"@,
{
    String::from_str("openai")
}

pub fn default_tier_str() -> (s: String)
    ensures
        s@ == "fast"@,
{
    String::from_str("fast")
}

pub fn default_enabled() -> (b: bool)
    ensures
        b,
{
    true
}

pub fn default_timeout_ms() -> (n: u64)
    ensures
        n == 30000,
{
    30000
}

/// What the routing logic reads of a configured model.
pub struct ProviderModelConfig {
    pub name: String,
    pub max_context_tokens: usize,
    pub tier: Option<String>,
}

/// What the routing logic reads of a configured provider.
pub struct ProviderConfig {
    pub id: String,
    pub name: String,
    pub kind: String,
    pub base_url: String,
    pub api_key: Option<String>,
    pub tier: String,
    pub enabled: bool,
    pub timeout_ms: u64,
    pub models: Vec<ProviderModelConfig>,
}

/// The hyphenated lower-case form of a UUID: 36 characters, hyphens at
/// positions 8, 13, 18 and 23, lower-case hexadecimal digits elsewhere.
pub open spec fn hyphenated_uuid(s: Seq<char>) -> bool {
    &&& s.len() == 36
    &&& forall|i: int| 0 <= i < 36 ==> {
        let c = #[trigger] s[i];
        if i == 8 || i == 13 || i == 18 || i == 23 {
            c == '-'
        } else {
            ('0' <= c <= '9') || ('a' <= c <= 'f')
        }
    }
}

/// A random UUID (`uuid::Uuid::new_v4`) as its `Display` writes it, the
/// hyphenated lower-case form. Which UUID comes out is left open.
#[verifier::external_body]
fn random_uuid_string() -> (s: String)
    ensures
        hyphenated_uuid(s@),
{
    uuid::Uuid::new_v4().to_string()
}

/// A provider's identity after defaults: the id falls back to the name, else
/// to `provider-` and a random UUID; the name falls back to the id; the kind
/// to `openai`.
pub open spec fn identity_defaults(before: ProviderConfig, after: ProviderConfig) -> bool {
    &&& (before.id@.len() > 0 ==> after.id@ == before.id@)
    &&& (before.id@.len() == 0 && before.name@.len() > 0 ==> after.id@ == before.name@)
    &&& (before.id@.len() == 0 && before.name@.len() == 0 ==> after.id@.len() == 45
        && after.id@.subrange(0, 9) == "provider-"@ && hyphenated_uuid(after.id@.subrange(9, 45)))
    &&& (before.name@.len() > 0 ==> after.name@ == before.name@)
    &&& (before.name@.len() == 0 ==> after.name@ == after.id@)
    &&& (before.kind@.len() > 0 ==> after.kind@ == before.kind@)
    &&& (before.kind@.len() == 0 ==> after.kind@ == "openai"@)
    &&& after.base_url == before.base_url
    &&& after.api_key == before.api_key
    &&& after.tier == before.tier
    &&& after.enabled == before.enabled
    &&& after.timeout_ms == before.timeout_ms
    &&& after.models == before.models
}

impl ProviderConfig {
    /// Fills in an empty id, name or kind.
    pub fn ensure_identity(&mut self)
        ensures
            identity_defaults(*old(self), *final(self)),
            final(self).id@.len() > 0,
            final(self).name@.len() > 0,
            final(self).kind@.len() > 0,
    {
        proof {
            reveal_strlit("provider-");
            reveal_strlit("openai");
        }
        if self.id.as_str().is_empty() {
            if !self.name.as_str().is_empty() {
                self.id = self.name.clone();
            } else {
                let mut id = String::from_str("provider-");
                let suffix = random_uuid_string();
                id.append(suffix.as_str());
                assert(id@.subrange(0, 9) =~= "provider-"@);
                assert(id@.subrange(9, 45) =~= suffix@);
                self.id = id;
            }
        }
        if self.name.as_str().is_empty() {
            self.name = self.id.clone();
        }
        if self.kind.as_str().is_empty() {
            self.kind = String::from_str("openai");
        }
    }
}

/// Fills in the identity of every provider, in place.
pub fn ensure_provider_defaults(providers: &mut Vec<ProviderConfig>)
    ensures
        final(providers)@.len() == old(providers)@.len(),
        forall|i: int| 0 <= i < final(providers)@.len() ==> identity_defaults(
            #[trigger] old(providers)@[i],
            final(providers)@[i],
        ),
        forall|i: int| 0 <= i < final(providers)@.len() ==> #[trigger] final(providers)@[i].id@.len() > 0
            && final(providers)@[i].name@.len() > 0 && final(providers)@[i].kind@.len() > 0,
{
    let ghost before = providers@;
    let mut i: usize = 0;
    while i < providers.len()
        invariant
            providers@.len() == before.len(),
            i <= providers@.len(),
            forall|k: int| 0 <= k < i ==> identity_defaults(#[trigger] before[k], providers@[k]),
            forall|k: int| 0 <= k < i ==> #[trigger] providers@[k].id@.len() > 0
                && providers@[k].name@.len() > 0 && providers@[k].kind@.len() > 0,
            forall|k: int| i <= k < providers@.len() ==> #[trigger] providers@[k] == before[k],
        decreases providers.len() - i,
    {
        let mut p = providers.remove(i);
        p.ensure_identity();
        providers.insert(i, p);
        i = i + 1;
    }
}

} // verus!
