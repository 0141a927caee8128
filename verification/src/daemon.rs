//! Start-up decisions of the `routerd` daemon: its command line, where it
//! listens, and what it logs.
use vstd::prelude::*;
use vstd::string::*;
use crate::config::DaemonConfig;
use crate::text::{chars_of, string_of_range, starts_with, has_prefix};

verus! {

/// The daemon's command line, paths held as text.
pub struct Cli {
    /// Configuration file (default `/etc/syntrop/routerd.toml`).
    pub config: String,
    pub listen_tcp: Option<String>,
    pub listen_unix: Option<String>,
    pub varlink_socket: Option<String>,
    pub inferenced_socket: Option<String>,
    pub verbose: bool,
}

/// Where the daemon listens when no socket was handed over.
pub struct Listeners {
    pub listen_tcp: String,
    pub listen_unix: String,
    pub varlink_socket: String,
}

fn text_or_copy(o: &Option<String>, d: &String) -> (r: String)
    ensures
        r@ == match o {
            Some(x) => x@,
            None => d@,
        },
{
    match o {
        Some(x) => x.clone(),
        None => d.clone(),
    }
}

/// The command line wins over the configuration file.
pub fn effective_listeners(cli: &Cli, daemon: &DaemonConfig) -> (l: Listeners)
    ensures
        l.listen_tcp@ == match cli.listen_tcp {
            Some(x) => x@,
            None => daemon.listen_tcp@,
        },
        l.listen_unix@ == match cli.listen_unix {
            Some(x) => x@,
            None => daemon.listen_unix@,
        },
        l.varlink_socket@ == match cli.varlink_socket {
            Some(x) => x@,
            None => daemon.varlink_socket@,
        },
{
    Listeners {
        listen_tcp: text_or_copy(&cli.listen_tcp, &daemon.listen_tcp),
        listen_unix: text_or_copy(&cli.listen_unix, &daemon.listen_unix),
        varlink_socket: text_or_copy(&cli.varlink_socket, &daemon.varlink_socket),
    }
}

/// A broker socket given on the command line replaces the configured one.
pub fn apply_inferenced_override(cli: &Cli, daemon: &mut DaemonConfig)
    ensures
        final(daemon).inferenced_socket@ == match cli.inferenced_socket {
            Some(x) => x@,
            None => old(daemon).inferenced_socket@,
        },
        final(daemon).listen_tcp == old(daemon).listen_tcp,
        final(daemon).listen_unix == old(daemon).listen_unix,
        final(daemon).varlink_socket == old(daemon).varlink_socket,
        final(daemon).log_level == old(daemon).log_level,
{
    match &cli.inferenced_socket {
        Some(x) => {
            daemon.inferenced_socket = x.clone();
        },
        None => {},
    }
}

/// Varlink socket used when the configured one cannot be bound.
pub fn fallback_varlink_socket() -> (s: String)
    ensures
        s@ == "/tmp/syntrop_io.syntrop.Router1"@,
{
    String::from_str("/tmp/syntrop_io.syntrop.Router1")
}

/// Unix gateway socket used when the configured one cannot be bound.
pub fn fallback_unix_gateway() -> (s: String)
    ensures
        s@ == "/tmp/syntrop_router.sock"@,
{
    String::from_str("/tmp/syntrop_router.sock")
}

/// Index of the first `:` at or after `i` (or the length).
pub open spec fn colon_from(s: Seq<char>, i: int) -> int
    decreases s.len() - i,
{
    if i < 0 || i >= s.len() {
        s.len() as int
    } else if s[i] == ':' {
        i
    } else {
        colon_from(s, i + 1)
    }
}

/// The port of an address `host:port`: what follows the first `:`, up to a
/// second one.
pub open spec fn port_field(s: Seq<char>, host_len: int) -> Seq<char> {
    s.subrange(host_len, colon_from(s, host_len))
}

fn port_after(v: &Vec<char>, start: usize) -> (r: String)
    requires
        start <= v@.len(),
    ensures
        r@ == v@.subrange(start as int, colon_from(v@, start as int)),
{
    let mut j = start;
    while j < v.len() && v[j] != ':'
        invariant
            start <= j <= v@.len(),
            colon_from(v@, j as int) == colon_from(v@, start as int),
        decreases v.len() - j,
    {
        j = j + 1;
    }
    string_of_range(v, start, j)
}

/// The IPv6 address also bound next to an IPv4 loopback or wildcard one, on
/// the same port: `[::1]` for `127.0.0.1`, `[::]` for `0.0.0.0`.
pub fn ipv6_companion(listen_tcp: &str) -> (r: Option<String>)
    ensures
        has_prefix(listen_tcp@, "127.0.0.1:"@) ==> (r matches Some(a) && a@ == "[::1]:"@
            + port_field(listen_tcp@, 10)),
        !has_prefix(listen_tcp@, "127.0.0.1:"@) && has_prefix(listen_tcp@, "0.0.0.0:"@) ==> (r matches Some(a)
            && a@ == "[::]:"@ + port_field(listen_tcp@, 8)),
        !has_prefix(listen_tcp@, "127.0.0.1:"@) && !has_prefix(listen_tcp@, "0.0.0.0:"@) ==> r is None,
{
    proof {
        reveal_strlit("127.0.0.1:");
        reveal_strlit("0.0.0.0:");
    }
    let v = chars_of(listen_tcp);
    if starts_with(listen_tcp, "127.0.0.1:") {
        let port = port_after(&v, 10);
        let mut a = String::from_str("[::1]:");
        a.append(port.as_str());
        Some(a)
    } else if starts_with(listen_tcp, "0.0.0.0:") {
        let port = port_after(&v, 8);
        let mut a = String::from_str("[::]:");
        a.append(port.as_str());
        Some(a)
    } else {
        None
    }
}

/// The log filter: everything at debug level when verbose, else the
/// configured level for all and for the daemon.
pub fn log_filter(verbose: bool, level: &str) -> (r: String)
    ensures
        verbose ==> r@ == "debug,routerd=debug,routerd_core=debug"@,
        !verbose ==> r@ == level@ + ",routerd="@ + level@,
{
    if verbose {
        String::from_str("debug,routerd=debug,routerd_core=debug")
    } else {
        let mut r = String::from_str(level);
        r.append(",routerd=");
        r.append(level);
        r
    }
}

} // verus!
