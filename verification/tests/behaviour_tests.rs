use composelint::parser::{parse_port_entry, parse_services, services_from_document, PortEntry, Service};
use composelint::ports::split_port_string;
use composelint::report::{decimal_text, exit_status, format_finding, report_lines, summary_line};
use composelint::rules::{check_unbound_published_ports, check_unpinned_image, lint};
use composelint::text::{trim, contains_char, find_first, find_last, str_eq};
use composelint::yaml::{parse_document, YamlNode, YamlTag};
use composelint::{lint_compose, Finding, Severity};

fn svc(name: &str) -> Service {
    Service {
        name: name.to_string(),
        ..Default::default()
    }
}

#[test]
fn split_keeps_variable_defaults_in_one_field() {
    assert_eq!(split_port_string("${A:-1}:2"), vec!["${A:-1}", "2"]);
    assert_eq!(split_port_string("10.0.0.1:${P:-80}:80"), vec!["10.0.0.1", "${P:-80}", "80"]);
}

#[test]
fn split_edge_cases() {
    assert_eq!(split_port_string(""), vec![""]);
    assert_eq!(split_port_string("a:b:c:d"), vec!["a", "b", "c", "d"]);
    assert_eq!(split_port_string(":"), vec!["", ""]);
    // A stray closing brace never takes the depth below zero.
    assert_eq!(split_port_string("}:{:x}"), vec!["}", "{:x}"]);
}

#[test]
fn split_then_join_gives_back_the_string() {
    for s in ["", "5432", "a:b", "${X:-1}:2", "1.2.3.4:${Y:-5}:6", "}{:}:", "::"] {
        assert_eq!(split_port_string(s).join(":"), s);
    }
}

#[test]
fn trim_removes_unicode_whitespace_at_both_ends() {
    assert_eq!(trim("  a b \n"), "a b");
    assert_eq!(trim("   "), "");
    assert_eq!(trim(""), "");
    assert_eq!(trim("\u{3000}x\u{85}"), "x");
    assert_eq!(trim("x"), "x");
}

#[test]
fn character_search_helpers() {
    assert!(contains_char("a$b", '$'));
    assert!(!contains_char("ab", '$'));
    assert_eq!(find_first("a:b:c", ':'), Some(1));
    assert_eq!(find_last("a/b/c", '/'), Some(3));
    assert_eq!(find_last("abc", '/'), None);
    assert!(str_eq("host", "host"));
    assert!(!str_eq("host", "hosts"));
}

#[test]
fn decimal_text_renders_numbers() {
    assert_eq!(decimal_text(0), "0");
    assert_eq!(decimal_text(7), "7");
    assert_eq!(decimal_text(1234), "1234");
}

#[test]
fn report_of_a_clean_file() {
    assert_eq!(report_lines("f.yml", &[]), vec!["composelint: f.yml: no issues found".to_string()]);
}

#[test]
fn report_lines_name_path_severity_service_rule_and_message() {
    let f = Finding {
        service: "web".to_string(),
        rule: "privileged-container",
        severity: Severity::Error,
        message: "m".to_string(),
    };
    assert_eq!(format_finding("f.yml", &f), "f.yml: [error] web: privileged-container - m");
    let g = Finding { severity: Severity::Warning, ..f.clone() };
    assert_eq!(
        report_lines("f.yml", &[f, g]),
        vec![
            "f.yml: [error] web: privileged-container - m".to_string(),
            "f.yml: [warning] web: privileged-container - m".to_string()
        ]
    );
    assert_eq!(summary_line("f.yml", 12), "\ncomposelint: 12 issue(s) found in f.yml");
}

#[test]
fn exit_status_follows_the_outcome() {
    assert_eq!(exit_status(&Ok(vec![])), 0);
    let findings = lint(&[svc("web")]);
    assert_eq!(exit_status(&Ok(findings)), 1);
    assert_eq!(exit_status(&Err("bad".to_string())), 2);
}

#[test]
fn lint_of_two_lists_is_the_concatenation() {
    let mut a = svc("a");
    a.image = Some("nginx".to_string());
    let mut b = svc("b");
    b.privileged = true;
    b.restart = Some("always".to_string());
    let both = lint(&[a.clone(), b.clone()]);
    let mut parts = lint(&[a]);
    parts.extend(lint(&[b]));
    assert_eq!(both, parts);
    assert_eq!(both.iter().map(|f| f.rule).collect::<Vec<_>>(), vec![
        "unpinned-image",
        "no-restart-policy",
        "privileged-container"
    ]);
    assert_eq!(both[0].service, "a");
    assert_eq!(both[2].service, "b");
}

#[test]
fn only_the_privileged_rule_is_an_error() {
    let mut s = svc("x");
    s.image = Some("nginx:latest".to_string());
    s.network_mode = Some("host".to_string());
    s.privileged = true;
    s.ports = vec![PortEntry { raw: "80:80".to_string(), host_ip: None, has_explicit_host_port: true }];
    let findings = lint(&[s]);
    assert_eq!(findings.len(), 5);
    for f in &findings {
        assert_eq!(f.severity == Severity::Error, f.rule == "privileged-container");
        assert_eq!(f.service, "x");
    }
}

#[test]
fn clean_services_give_no_findings() {
    let mut s = svc("x");
    s.image = Some("nginx:1.2".to_string());
    s.restart = Some("no".to_string());
    assert!(lint(&[s.clone(), s]).is_empty());
    assert!(lint(&[]).is_empty());
}

#[test]
fn one_finding_per_unbound_port() {
    let mut s = svc("db");
    s.ports = vec![
        PortEntry { raw: "1:1".to_string(), host_ip: None, has_explicit_host_port: true },
        PortEntry { raw: "2".to_string(), host_ip: None, has_explicit_host_port: false },
        PortEntry { raw: ":3:3".to_string(), host_ip: Some(String::new()), has_explicit_host_port: true },
        PortEntry { raw: "127.0.0.1:4:4".to_string(), host_ip: Some("127.0.0.1".to_string()), has_explicit_host_port: true },
    ];
    let findings = check_unbound_published_ports(&s);
    assert_eq!(findings.len(), 2);
    assert_eq!(
        findings[0].message,
        "port mapping '1:1' publishes to every host interface — bind a specific host IP (e.g. 127.0.0.1) unless this genuinely needs to be reachable from outside the host"
    );
    assert_eq!(findings[1].service, "db");
    assert_eq!(findings[1].rule, "unbound-published-port");
}

#[test]
fn image_rule_reads_only_the_last_path_segment() {
    let mut s = svc("w");
    s.image = Some("localhost:5000/app".to_string());
    let f = check_unpinned_image(&s);
    assert_eq!(f.len(), 1);
    assert_eq!(
        f[0].message,
        "image 'localhost:5000/app' has no tag — pin an explicit version instead of floating on whatever 'latest' resolves to today"
    );
    s.image = Some("repo/app:latest".to_string());
    assert_eq!(
        check_unpinned_image(&s)[0].message,
        "image 'repo/app:latest' is explicitly pinned to 'latest', which is exactly as unreproducible as no tag at all"
    );
    s.image = Some("${IMAGE}".to_string());
    assert!(check_unpinned_image(&s).is_empty());
    s.image = Some("app:1:latest".to_string());
    assert!(check_unpinned_image(&s).is_empty());
}

#[test]
fn document_errors_have_their_messages() {
    assert_eq!(parse_services("version: \"3.8\"\n").unwrap_err(), "no top-level 'services' key found");
    assert_eq!(parse_services("services: 3\n").unwrap_err(), "'services' is not a mapping");
    assert!(parse_services(": : :not yaml").unwrap_err().starts_with("not valid YAML: "));
    assert_eq!(lint_compose("services: [a]\n").unwrap_err(), "'services' is not a mapping");
    assert_eq!(
        services_from_document(&YamlNode::Null).unwrap_err(),
        "no top-level 'services' key found"
    );
}

#[test]
fn services_with_no_string_name_are_skipped_and_order_is_kept() {
    let yaml = "services:\n  zeta:\n    image: a:1\n  123:\n    image: b\n  alpha:\n    privileged: yes\n    ports: 80\n";
    let services = parse_services(yaml).unwrap();
    let names: Vec<&str> = services.iter().map(|s| s.name.as_str()).collect();
    assert_eq!(names, vec!["zeta", "alpha"]);
    // `yes` is a plain string in YAML 1.2, so privileged stays false.
    assert!(!services[1].privileged);
    assert!(services[1].ports.is_empty());
}

#[test]
fn tags_are_looked_through() {
    let yaml = "services: !custom\n  web:\n    image: !foo nginx\n    privileged: !b true\n";
    let services = parse_services(yaml).unwrap();
    assert_eq!(services[0].image.as_deref(), Some("nginx"));
    assert!(services[0].privileged);
}

#[test]
fn long_form_raw_text_is_the_written_mapping() {
    let v = parse_document("target: 5432\npublished: 5432\nhost_ip: 127.0.0.1\n").unwrap();
    let entry = parse_port_entry(&v);
    assert_eq!(entry.raw, "target: 5432\npublished: 5432\nhost_ip: 127.0.0.1");
    assert!(entry.has_explicit_host_port);
}

#[test]
fn parsed_document_has_the_expected_shape() {
    let v = parse_document("a: [1, x, true, ~]\n").unwrap();
    match v {
        YamlNode::Mapping(entries) => {
            assert_eq!(entries.len(), 1);
            match &entries[0].1 {
                YamlNode::Sequence(items) => {
                    assert!(matches!(&items[0], YamlNode::Number(n) if n == "1"));
                    assert!(matches!(&items[1], YamlNode::Str(s) if s == "x"));
                    assert!(matches!(&items[2], YamlNode::Bool(true)));
                    assert!(matches!(&items[3], YamlNode::Null));
                }
                _ => panic!("expected a sequence"),
            }
        }
        _ => panic!("expected a mapping"),
    }
    assert!(parse_document("a: [").is_none());
}

#[test]
fn tagged_short_form_uses_its_yaml_text() {
    let tag = YamlTag::new("!t".to_string()).unwrap();
    assert_eq!(tag.text(), "!t");
    let entry = parse_port_entry(&YamlNode::Tagged(tag, Box::new(YamlNode::Str("1:2".to_string()))));
    assert_eq!(entry.raw, "!t 1:2");
    assert!(entry.has_explicit_host_port);
    assert!(YamlTag::new(String::new()).is_none());
    let entry = parse_port_entry(&YamlNode::Sequence(vec![YamlNode::Number("42".to_string())]));
    assert_eq!(entry.raw, "- 42");
}

#[test]
fn short_form_other_values_use_their_yaml_text() {
    let entry = parse_port_entry(&YamlNode::Bool(true));
    assert_eq!(entry.raw, "true");
    assert!(!entry.has_explicit_host_port);
    let entry = parse_port_entry(&YamlNode::Str("a:b:c:d".to_string()));
    assert_eq!(entry.host_ip, None);
    assert!(entry.has_explicit_host_port);
}

#[test]
fn variable_port_end_to_end() {
    let yaml = "services:\n  s3:\n    image: rustfs/rustfs:latest\n    restart: always\n    ports:\n      - \"${RUSTFS_API_PORT:-9000}:9000\"\n";
    let findings = lint_compose(yaml).unwrap();
    let rules: Vec<&str> = findings.iter().map(|f| f.rule).collect();
    assert_eq!(rules, vec!["unpinned-image", "unbound-published-port"]);
}

#[test]
fn long_form_port_without_published_has_no_fixed_host_port() {
    let v = parse_document("target: 80\n").unwrap();
    let entry = parse_port_entry(&v);
    assert!(!entry.has_explicit_host_port);
    assert_eq!(entry.host_ip, None);
    let yaml = "services:\n  web:\n    image: nginx:1\n    restart: always\n    ports:\n      - target: 80\n";
    assert!(lint_compose(yaml).unwrap().is_empty());
    let yaml = "services:\n  web:\n    image: nginx:1\n    restart: always\n    ports:\n      - target: 80\n        published: 8080\n";
    let findings = lint_compose(yaml).unwrap();
    assert_eq!(findings.len(), 1);
    assert_eq!(findings[0].rule, "unbound-published-port");
}

#[test]
fn any_restart_value_counts_as_a_policy() {
    for (value, text) in [("null", "null"), ("false", "false"), ("5", "5"), ("\"no\"", "no"), ("~", "null")] {
        let yaml = format!("services:\n  web:\n    image: nginx:1\n    restart: {value}\n");
        let services = parse_services(&yaml).unwrap();
        assert_eq!(services[0].restart.as_deref(), Some(text));
        assert!(lint_compose(&yaml).unwrap().is_empty(), "restart: {value} was flagged");
    }
    let yaml = "services:\n  web:\n    image: nginx:1\n";
    assert_eq!(lint_compose(yaml).unwrap()[0].rule, "no-restart-policy");
}

#[test]
fn invalid_yaml_error_is_the_same_from_both_entry_points() {
    let text = ": : :not yaml";
    let a = parse_services(text).unwrap_err();
    let b = lint_compose(text).unwrap_err();
    assert_eq!(a, b);
    assert!(a.len() > "not valid YAML: ".len());
}

#[test]
fn brace_free_strings_split_on_every_colon() {
    for s in ["}:5432", "a:b:c", "}}:}:x", "plain"] {
        let expected: Vec<&str> = s.split(':').collect();
        assert_eq!(split_port_string(s), expected);
    }
}

#[test]
fn fields_count_and_resplit() {
    let s = "1.2.3.4:${P:-80}:{a:b}:80";
    let parts = split_port_string(s);
    // Three colons stand outside every brace.
    assert_eq!(parts.len(), 4);
    for p in &parts {
        assert_eq!(split_port_string(p), vec![*p]);
    }
}

#[test]
fn unbound_findings_follow_the_unbound_ports_in_order() {
    let mut s = svc("db");
    s.ports = vec![
        PortEntry { raw: "127.0.0.1:1:1".to_string(), host_ip: Some("127.0.0.1".to_string()), has_explicit_host_port: true },
        PortEntry { raw: "2:2".to_string(), host_ip: None, has_explicit_host_port: true },
        PortEntry { raw: "3".to_string(), host_ip: None, has_explicit_host_port: false },
        PortEntry { raw: "0.0.0.0:4:4".to_string(), host_ip: Some("0.0.0.0".to_string()), has_explicit_host_port: true },
    ];
    let findings = check_unbound_published_ports(&s);
    assert_eq!(findings.len(), 2);
    assert!(findings[0].message.contains("'2:2'"));
    assert!(findings[1].message.contains("'0.0.0.0:4:4'"));
    for f in &findings {
        assert_eq!(f.severity, Severity::Warning);
        assert_eq!(f.service, "db");
    }
}

#[test]
fn tagged_and_plain_keys_are_separate_services() {
    let yaml = "services:\n  web:\n    image: a:1\n    restart: always\n  !t web:\n    image: a:1\n";
    let services = parse_services(yaml).unwrap();
    assert_eq!(services.len(), 2);
    let findings = lint_compose(yaml).unwrap();
    assert_eq!(findings.len(), 1);
    assert_eq!(findings[0].service, "web");
    assert_eq!(findings[0].rule, "no-restart-policy");
}
