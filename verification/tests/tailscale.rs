use coraldesk::tunnel::tailscale::{host_name, TailscaleTunnel, TunnelStep};

fn spawn_of(step: TunnelStep) -> (Vec<String>, String) {
    match step {
        TunnelStep::Spawn(args, host) => (args, host),
        other => panic!("unexpected step {other:?}"),
    }
}

#[test]
fn constructor_stores_hostname_and_mode() {
    let tunnel = TailscaleTunnel::new(true, Some("myhost.tailnet.ts.net".into()));
    assert!(tunnel.funnel);
    assert_eq!(tunnel.hostname.as_deref(), Some("myhost.tailnet.ts.net"));
}

#[test]
fn public_url_is_none_before_start() {
    let tunnel = TailscaleTunnel::new(false, None);
    assert!(tunnel.public_url().is_none());
}

#[test]
fn health_check_is_false_before_start() {
    let tunnel = TailscaleTunnel::new(false, None);
    assert!(!tunnel.health_check(None));
    assert!(!tunnel.health_check(Some(7)));
}

#[test]
fn stop_without_started_process_is_ok() {
    let mut tunnel = TailscaleTunnel::new(false, None);
    assert_eq!(tunnel.stop(), vec!["serve", "reset"]);
    tunnel.stopped();
    assert!(tunnel.public_url().is_none());
}

#[test]
fn tunnel_is_reached_from_start_to_stop() {
    let mut tunnel = TailscaleTunnel::new(true, Some("box.ts.net".into()));
    assert_eq!(tunnel.name(), "tailscale");
    let (args, host) = spawn_of(tunnel.start("127.0.0.1", 8080));
    assert_eq!(args, vec!["funnel", "8080"]);
    assert_eq!(host, "box.ts.net");
    assert_eq!(tunnel.spawned(&host, 8080), "https://box.ts.net:8080");
    assert_eq!(
        tunnel.public_url().as_deref(),
        Some("https://box.ts.net:8080")
    );
    assert!(tunnel.health_check(Some(1)));
    assert!(!tunnel.health_check(None));
    assert_eq!(tunnel.stop(), vec!["funnel", "reset"]);
    tunnel.stopped();
    assert!(tunnel.public_url().is_none());
    assert!(!tunnel.health_check(Some(1)));
}

#[test]
fn host_name_is_asked_for() {
    let tunnel = TailscaleTunnel::new(false, None);
    match tunnel.start("localhost", 1) {
        TunnelStep::Status(args) => assert_eq!(args, vec!["status", "--json"]),
        other => panic!("unexpected step {other:?}"),
    }
    let stdout = br#"{"Self": {"DNSName": "node.tail1234.ts.net.", "Online": true}}"#;
    let (args, host) = spawn_of(tunnel.status_found(true, stdout, b"", 65535));
    assert_eq!(args, vec!["serve", "65535"]);
    assert_eq!(host, "node.tail1234.ts.net");
}

#[test]
fn unknown_host_is_local() {
    let tunnel = TailscaleTunnel::new(false, None);
    for stdout in [
        &b"not json"[..],
        b"{}",
        b"[1]",
        br#"{"Self": 1}"#,
        br#"{"Self": {"DNSName": 7}}"#,
        b"\xff",
    ] {
        let (_, host) = spawn_of(tunnel.status_found(true, stdout, b"", 80));
        assert_eq!(host, "localhost");
    }
    let (_, host) = spawn_of(tunnel.status_found(true, br#"{"Self": {"DNSName": ".."}}"#, b"", 80));
    assert_eq!(host, "");
    assert_eq!(host_name(Some("a.b...".to_string())), "a.b");
    assert_eq!(host_name(None), "localhost");
}

#[test]
fn failed_status_is_reported() {
    let tunnel = TailscaleTunnel::new(false, None);
    match tunnel.status_found(false, b"", b"not logged \xff in", 80) {
        TunnelStep::Failed(message) => {
            assert_eq!(message, "tailscale status failed: not logged \u{fffd} in")
        }
        other => panic!("unexpected step {other:?}"),
    }
    match tunnel.dns_name_found(false, Some("x".to_string()), "down", 80) {
        TunnelStep::Failed(message) => assert_eq!(message, "tailscale status failed: down"),
        other => panic!("unexpected step {other:?}"),
    }
}
