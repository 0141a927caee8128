//! The command line of `routerctl`, as plain values. Paths are held as text.
use vstd::prelude::*;

verus! {

/// Options shared by every `routerctl` command.
pub struct Cli {
    /// Varlink socket of the daemon (default `/run/syntrop/io.syntrop.Router1`).
    pub socket: String,
    /// HTTP gateway of the daemon (default `http://127.0.0.1:32768`).
    pub http_url: String,
    /// Print JSON instead of tables.
    pub json: bool,
    pub command: Commands,
}

/// The `routerctl` commands.
pub enum Commands {
    /// Daemon status, memory, requests and pressure.
    Status,
    /// Inspect and test providers.
    Providers(ProvidersArgs),
    /// List the models on offer.
    Models,
    /// Simulate a routing decision.
    Route(RouteArgs),
    /// Benchmark latency through the router.
    Test(TestArgs),
    /// Introspect the Varlink interfaces.
    Info(InfoArgs),
    /// Interactive provider setup.
    Setup(SetupArgs),
    /// Show or pin the default model of both tiers.
    Default(DefaultArgs),
}

pub struct ProvidersArgs {
    pub command: ProvidersCommands,
}

pub enum ProvidersCommands {
    /// List configured providers and their health.
    List,
    /// Probe one provider, or all where none is named.
    Test { provider_id: Option<String> },
}

pub struct RouteArgs {
    /// Target model (default `router:fast`).
    pub model: String,
    /// Difficulty tier.
    pub tier: Option<String>,
    /// Estimated context tokens (default 1024).
    pub tokens: usize,
    /// Simulate a streaming request.
    pub stream: bool,
}

pub struct TestArgs {
    /// Model to test (default `router:fast`).
    pub model: String,
    /// Prompt to send.
    pub prompt: String,
    /// Difficulty tier.
    pub tier: Option<String>,
}

pub struct InfoArgs {
    /// The interface to describe; the service itself where `None`.
    pub interface: Option<String>,
}

pub struct SetupArgs {
    /// Router configuration file (default `/etc/syntrop/routerd.toml`).
    pub config: String,
    /// Credentials environment file (default `/etc/syntrop/credentials.env`).
    pub credentials_path: String,
    /// Directory holding model files (default `/var/lib/models`).
    pub models_dir: String,
    /// Do not restart the service afterwards.
    pub no_reload: bool,
}

pub struct DefaultArgs {
    /// Router configuration file (default `/etc/syntrop/routerd.toml`).
    pub config: String,
    /// The model to pin; the current defaults are shown where `None`.
    pub model: Option<String>,
    /// Do not restart the service afterwards.
    pub no_reload: bool,
}

} // verus!
