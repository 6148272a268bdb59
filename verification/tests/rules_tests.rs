use composelint::parser::{PortEntry, Service};
use composelint::rules::{
    check_host_network_mode, check_no_restart_policy, check_privileged,
    check_unbound_published_ports, check_unpinned_image, lint,
};
use composelint::Severity;

fn svc(name: &str) -> Service {
    Service {
        name: name.to_string(),
        ..Default::default()
    }
}

#[test]
fn flags_image_with_no_tag() {
    let mut s = svc("web");
    s.image = Some("nginx".to_string());
    assert_eq!(check_unpinned_image(&s).len(), 1);
}

#[test]
fn flags_image_with_explicit_latest() {
    let mut s = svc("web");
    s.image = Some("nginx:latest".to_string());
    assert_eq!(check_unpinned_image(&s).len(), 1);
}

#[test]
fn does_not_flag_a_pinned_image_tag() {
    let mut s = svc("web");
    s.image = Some("nginx:1.25.3".to_string());
    assert!(check_unpinned_image(&s).is_empty());
}

#[test]
fn does_not_flag_a_digest_pinned_image() {
    let mut s = svc("web");
    s.image = Some("nginx@sha256:abc123".to_string());
    assert!(check_unpinned_image(&s).is_empty());
}

#[test]
fn does_not_flag_a_service_with_no_image_field() {
    // build: context only, no image: nothing to check.
    assert!(check_unpinned_image(&svc("web")).is_empty());
}

#[test]
fn flags_missing_restart_policy() {
    assert_eq!(check_no_restart_policy(&svc("web")).len(), 1);
}

#[test]
fn does_not_flag_an_explicit_restart_no() {
    let mut s = svc("web");
    s.restart = Some("no".to_string());
    assert!(check_no_restart_policy(&s).is_empty());
}

#[test]
fn does_not_flag_restart_unless_stopped() {
    let mut s = svc("web");
    s.restart = Some("unless-stopped".to_string());
    assert!(check_no_restart_policy(&s).is_empty());
}

#[test]
fn flags_host_network_mode() {
    let mut s = svc("web");
    s.network_mode = Some("host".to_string());
    assert_eq!(check_host_network_mode(&s).len(), 1);
}

#[test]
fn does_not_flag_bridge_network_mode() {
    let mut s = svc("web");
    s.network_mode = Some("bridge".to_string());
    assert!(check_host_network_mode(&s).is_empty());
}

#[test]
fn flags_privileged_true() {
    let mut s = svc("web");
    s.privileged = true;
    assert_eq!(check_privileged(&s).len(), 1);
    assert_eq!(check_privileged(&s)[0].severity, Severity::Error);
}

#[test]
fn does_not_flag_privileged_false() {
    assert!(check_privileged(&svc("web")).is_empty());
}

#[test]
fn flags_a_published_port_with_no_host_ip() {
    let mut s = svc("db");
    s.ports = vec![PortEntry {
        raw: "5432:5432".to_string(),
        host_ip: None,
        has_explicit_host_port: true,
    }];
    assert_eq!(check_unbound_published_ports(&s).len(), 1);
}

#[test]
fn flags_a_published_port_explicitly_bound_to_all_interfaces() {
    let mut s = svc("db");
    s.ports = vec![PortEntry {
        raw: "0.0.0.0:5432:5432".to_string(),
        host_ip: Some("0.0.0.0".to_string()),
        has_explicit_host_port: true,
    }];
    assert_eq!(check_unbound_published_ports(&s).len(), 1);
}

#[test]
fn does_not_flag_a_port_bound_to_loopback() {
    let mut s = svc("db");
    s.ports = vec![PortEntry {
        raw: "127.0.0.1:5432:5432".to_string(),
        host_ip: Some("127.0.0.1".to_string()),
        has_explicit_host_port: true,
    }];
    assert!(check_unbound_published_ports(&s).is_empty());
}

#[test]
fn does_not_flag_a_bare_container_port_with_no_fixed_host_port() {
    let mut s = svc("db");
    s.ports = vec![PortEntry {
        raw: "5432".to_string(),
        host_ip: None,
        has_explicit_host_port: false,
    }];
    assert!(check_unbound_published_ports(&s).is_empty());
}

#[test]
fn lint_runs_all_rules_across_all_services() {
    let mut bad = svc("web");
    bad.image = Some("nginx".to_string());
    bad.privileged = true;
    let findings = lint(&[bad]);
    assert!(findings.iter().any(|f| f.rule == "unpinned-image"));
    assert!(findings.iter().any(|f| f.rule == "no-restart-policy"));
    assert!(findings.iter().any(|f| f.rule == "privileged-container"));
}
