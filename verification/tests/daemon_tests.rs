use routerd::activation::{
    classify_unix_socket, is_socket_activated, listen_fd, listen_fd_count, ActivatedSockets,
    Placement, SocketFamily, SocketRole, SD_LISTEN_FDS_START,
};
use routerd::config::DaemonConfig;
use routerd::daemon::{apply_inferenced_override, effective_listeners, ipv6_companion, log_filter, Cli};
use routerd::error::RouterError;
use routerd::gateway::{apply_tier_header, map_error_status, wants_stream};
use routerd::models::ChatCompletionRequest;
use routerd::notify::{
    notify_address, notify_systemd_ready, notify_systemd_status, notify_systemd_stopping,
    notify_systemd_watchdog, plan_notification, sanitize_value, NotifyPlan, NotifyTarget, NOTIFY_MAX,
};
use routerd::rss::{MemoryStats, RSS_TARGET_MAX_BYTES};

#[test]
fn test_socket_activation_detection() {
    let pid: u32 = 4242;
    assert!(is_socket_activated(Some("4242"), Some("2"), pid));
    assert!(!is_socket_activated(Some(&(pid + 9999).to_string()), Some("2"), pid));
    assert!(!is_socket_activated(None, None, pid));
    assert!(!is_socket_activated(Some("4242"), Some("0"), pid));
    assert!(!is_socket_activated(Some("4242"), Some("-1"), pid));
    assert!(!is_socket_activated(Some("x"), Some("2"), pid));
}

#[test]
fn listen_descriptors_are_numbered_from_three() {
    assert_eq!(SD_LISTEN_FDS_START, 3);
    assert_eq!(listen_fd_count(Some("2")), 2);
    assert_eq!(listen_fd_count(Some("nope")), 0);
    assert_eq!(listen_fd_count(None), 0);
    assert_eq!(listen_fd(0), 3);
    assert_eq!(listen_fd(1), 4);
}

#[test]
fn unix_sockets_are_classified_by_name() {
    assert_eq!(classify_unix_socket(Some("io.syntrop.Router1")), Some(SocketRole::Varlink));
    assert_eq!(classify_unix_socket(Some("router.sock")), Some(SocketRole::GatewayUnix));
    assert_eq!(classify_unix_socket(Some("other.sock")), None);
    assert_eq!(classify_unix_socket(None), None);
}

#[test]
fn adoption_falls_back_by_position() {
    let mut s = ActivatedSockets::new();
    assert_eq!(s.adopt(3, &SocketFamily::Inet), Placement::TcpGateway);
    assert_eq!(s.adopt(4, &SocketFamily::Unix(None)), Placement::GatewayUnixByPosition);
    assert_eq!(s.adopt(5, &SocketFamily::Unix(Some("x".to_string()))), Placement::VarlinkByPosition);
    assert_eq!(s.adopt(6, &SocketFamily::Unix(None)), Placement::Unassigned);
    assert_eq!(s.adopt(7, &SocketFamily::Unix(Some("io.syntrop.Router1".to_string()))), Placement::Varlink);
    assert_eq!(s.adopt(8, &SocketFamily::Other), Placement::Unrecognized);
    assert_eq!(s.tcp_gateways, vec![3]);
    assert_eq!(s.unix_gateway, Some(4));
    assert_eq!(s.varlink, Some(7));
}

#[test]
fn adoption_of_tcp_and_named_gateway() {
    let mut s = ActivatedSockets::new();
    s.adopt(3, &SocketFamily::Inet);
    s.adopt(4, &SocketFamily::Unix(Some("router.sock".to_string())));
    assert_eq!(s.tcp_gateways.len(), 1);
    assert!(s.unix_gateway.is_some() || s.varlink.is_some());
}

#[test]
fn notify_targets() {
    assert!(matches!(notify_address("@sd"), Some(NotifyTarget::Abstract(ref n)) if n == "sd"));
    assert!(matches!(notify_address("/run/systemd/notify"), Some(NotifyTarget::Filesystem(ref p)) if p == "/run/systemd/notify"));
    assert!(notify_address("").is_none());
    assert!(notify_address("@").is_none());
    assert!(notify_address("@a\0b").is_none());
}

#[test]
fn notify_messages() {
    assert_eq!(notify_systemd_ready(), "READY=1\nSTATUS=Router daemon active\n");
    assert_eq!(notify_systemd_watchdog(), "WATCHDOG=1\n");
    assert_eq!(notify_systemd_stopping(), "STOPPING=1\nSTATUS=Shutting down cleanly\n");
    assert_eq!(notify_systemd_status("busy\nREADY=1\r"), "STATUS=busyREADY=1\n");
    assert_eq!(sanitize_value("a\r\nb"), "ab");
}

#[test]
fn notify_plans() {
    assert!(matches!(plan_notification("READY=1\n", None), NotifyPlan::NotSupervised));
    assert!(matches!(plan_notification("READY=1\n", Some("")), NotifyPlan::NotSupervised));
    assert!(matches!(plan_notification("READY=1\n", Some("@")), NotifyPlan::InvalidTarget));
    assert!(matches!(plan_notification("READY=1\n", Some("/run/n")), NotifyPlan::Send(NotifyTarget::Filesystem(_))));
    let big = "x".repeat(NOTIFY_MAX + 1);
    assert!(matches!(plan_notification(&big, Some("/run/n")), NotifyPlan::TooLarge));
    let edge = "x".repeat(NOTIFY_MAX);
    assert!(matches!(plan_notification(&edge, None), NotifyPlan::NotSupervised));
}

#[test]
fn statm_figures() {
    let m = MemoryStats::from_statm("100 20 5 1 0 7 0\n", 4096).unwrap();
    assert_eq!(m.virt_bytes, 409_600);
    assert_eq!(m.rss_bytes, 81_920);
    assert_eq!(m.page_size, 4096);
    let bad = MemoryStats::from_statm("x 7", 4096).unwrap();
    assert_eq!(bad.virt_bytes, 0);
    assert_eq!(bad.rss_bytes, 28_672);
    let empty = MemoryStats::from_statm("", 4096).unwrap();
    assert_eq!(empty.rss_bytes, 0);
    assert!(MemoryStats::from_statm("18446744073709551615 1", 2).is_none());
    assert!(!m.exceeds_target());
    let big = MemoryStats { rss_bytes: RSS_TARGET_MAX_BYTES + 1, virt_bytes: 0, page_size: 4096 };
    assert!(big.exceeds_target());
}

#[test]
fn memory_of_this_process() {
    let m = MemoryStats::read_from(Some("10 5"));
    assert!(m.page_size >= 4096);
    assert_eq!(m.rss_bytes, 5 * m.page_size as u64);
    let none = MemoryStats::read_from(None);
    assert_eq!(none.rss_bytes, 0);
}

#[test]
fn routing_failures_map_to_http_statuses() {
    let ctx = RouterError::ContextLimitExceeded { model: "m".to_string(), requested_tokens: 9000, context_limit: 8192 };
    assert_eq!(map_error_status(&ctx), (400, "context_limit_exceeded"));
    assert_eq!(map_error_status(&RouterError::NoHealthyProvider("x".to_string())), (503, "no_healthy_provider"));
    assert_eq!(
        map_error_status(&RouterError::ProviderUnavailable { provider: "p".to_string(), reason: "r".to_string() }),
        (502, "provider_unavailable")
    );
    assert_eq!(map_error_status(&RouterError::Timeout("t".to_string())), (504, "timeout"));
    assert_eq!(map_error_status(&RouterError::Config("c".to_string())), (500, "internal_error"));
}

#[test]
fn error_messages() {
    let ctx = RouterError::ContextLimitExceeded { model: "small".to_string(), requested_tokens: 1050, context_limit: 1000 };
    assert_eq!(ctx.message(), "Context limit exceeded for model 'small': requested 1050 tokens, max allowed is 1000");
    assert_eq!(RouterError::Other("x".to_string()).message(), "Internal router error: x");
    assert_eq!(
        RouterError::ProviderUnavailable { provider: "p".to_string(), reason: "down".to_string() }.message(),
        "Provider 'p' unavailable: down"
    );
    assert_eq!(RouterError::Io("denied".to_string()).message(), "I/O error: denied");
}

fn request(tier: Option<&str>, stream: Option<bool>) -> ChatCompletionRequest {
    ChatCompletionRequest {
        model: "router:fast".to_string(),
        messages: Vec::new(),
        max_tokens: None,
        max_completion_tokens: None,
        stream,
        tier: tier.map(|t| t.to_string()),
    }
}

#[test]
fn tier_header_applies_only_without_body_tier() {
    let mut r = request(None, None);
    apply_tier_header(&mut r, Some("hard"));
    assert_eq!(r.tier.as_deref(), Some("hard"));
    let mut r = request(Some("fast"), None);
    apply_tier_header(&mut r, Some("hard"));
    assert_eq!(r.tier.as_deref(), Some("fast"));
    let mut r = request(None, None);
    apply_tier_header(&mut r, None);
    assert_eq!(r.tier, None);
    assert!(wants_stream(&request(None, Some(true))));
    assert!(!wants_stream(&request(None, None)));
}

#[test]
fn daemon_listening_addresses() {
    let cfg = DaemonConfig::default();
    let cli = Cli {
        config: "/etc/syntrop/routerd.toml".to_string(),
        listen_tcp: Some("0.0.0.0:9000".to_string()),
        listen_unix: None,
        varlink_socket: None,
        inferenced_socket: Some("/tmp/inf".to_string()),
        verbose: false,
    };
    let l = effective_listeners(&cli, &cfg);
    assert_eq!(l.listen_tcp, "0.0.0.0:9000");
    assert_eq!(l.listen_unix, "/run/syntrop/router.sock");
    assert_eq!(l.varlink_socket, "/run/syntrop/io.syntrop.Router1");
    let mut cfg2 = DaemonConfig::default();
    apply_inferenced_override(&cli, &mut cfg2);
    assert_eq!(cfg2.inferenced_socket, "/tmp/inf");
    assert_eq!(ipv6_companion("127.0.0.1:32768"), Some("[::1]:32768".to_string()));
    assert_eq!(ipv6_companion("0.0.0.0:9000"), Some("[::]:9000".to_string()));
    assert_eq!(ipv6_companion("10.0.0.1:9000"), None);
    assert_eq!(log_filter(true, "info"), "debug,routerd=debug,routerd_core=debug");
    assert_eq!(log_filter(false, "warn"), "warn,routerd=warn");
}
