use std::collections::HashSet;

use composelint::lint_compose;

/// Two services built to trip all five rules.
const BAD: &str = "services:
  web:
    image: nginx
    network_mode: host
    privileged: true
  db:
    image: postgres:latest
    ports:
      - \"5432:5432\"
";

/// Three services meant to pass every rule, one of them publishing a bare
/// container port.
const GOOD: &str = "services:
  web:
    image: nginx:1.25.3
    restart: unless-stopped
    ports:
      - \"127.0.0.1:8080:80\"
  db:
    image: postgres@sha256:abc123
    restart: always
    ports:
      - target: 5432
        published: 5432
        host_ip: 127.0.0.1
  worker:
    build: ./worker
    restart: \"no\"
    ports:
      - \"9000\"
";

#[test]
fn bad_fixture_trips_every_rule_at_least_once() {
    let findings = lint_compose(BAD).unwrap();
    let rules: HashSet<&str> = findings.iter().map(|f| f.rule).collect();
    for expected in [
        "unpinned-image",
        "no-restart-policy",
        "host-network-mode",
        "privileged-container",
        "unbound-published-port",
    ] {
        assert!(
            rules.contains(expected),
            "expected rule '{expected}' to fire on the bad fixture, got: {rules:?}"
        );
    }
}

#[test]
fn good_fixture_produces_zero_findings() {
    let findings = lint_compose(GOOD).unwrap();
    assert!(
        findings.is_empty(),
        "expected zero findings on the good fixture, got: {findings:?}"
    );
}
