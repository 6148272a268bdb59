use composelint::parser::{parse_port_entry, parse_services};
use composelint::yaml::{parse_document, YamlNode};

#[test]
fn parses_a_basic_service() {
    let yaml = "services:\n  web:\n    image: nginx:1.25\n    restart: unless-stopped\n";
    let services = parse_services(yaml).unwrap();
    assert_eq!(services.len(), 1);
    assert_eq!(services[0].name, "web");
    assert_eq!(services[0].image.as_deref(), Some("nginx:1.25"));
    assert_eq!(services[0].restart.as_deref(), Some("unless-stopped"));
}

#[test]
fn missing_services_key_is_an_error() {
    assert!(parse_services("version: \"3.8\"\n").is_err());
}

#[test]
fn invalid_yaml_is_an_error() {
    assert!(parse_services(": : :not yaml").is_err());
}

#[test]
fn short_form_port_with_host_ip_is_parsed() {
    let entry = parse_port_entry(&YamlNode::Str("127.0.0.1:5432:5432".to_string()));
    assert_eq!(entry.host_ip.as_deref(), Some("127.0.0.1"));
    assert!(entry.has_explicit_host_port);
}

#[test]
fn short_form_port_without_host_ip_has_none() {
    let entry = parse_port_entry(&YamlNode::Str("5432:5432".to_string()));
    assert_eq!(entry.host_ip, None);
    assert!(entry.has_explicit_host_port);
}

#[test]
fn bare_container_port_short_form_is_not_an_explicit_host_port() {
    // YAML reads an unquoted bare number as a number, not a string.
    let entry = parse_port_entry(&YamlNode::Number("5432".to_string()));
    assert!(!entry.has_explicit_host_port);
    assert_eq!(entry.host_ip, None);
}

#[test]
fn long_form_port_with_host_ip_is_parsed() {
    let yaml = "target: 5432\npublished: 5432\nhost_ip: 127.0.0.1\n";
    let v = parse_document(yaml).unwrap();
    let entry = parse_port_entry(&v);
    assert_eq!(entry.host_ip.as_deref(), Some("127.0.0.1"));
}

#[test]
fn long_form_port_without_host_ip_has_none() {
    let yaml = "target: 5432\npublished: 5432\n";
    let v = parse_document(yaml).unwrap();
    let entry = parse_port_entry(&v);
    assert_eq!(entry.host_ip, None);
}

#[test]
fn env_var_default_syntax_in_host_port_is_not_mistaken_for_a_host_ip() {
    // "${RUSTFS_API_PORT:-9000}:9000" is host_port:container_port with the
    // host port coming from a variable with a default; the ':-' inside the
    // braces is no field delimiter.
    let entry = parse_port_entry(&YamlNode::Str("${RUSTFS_API_PORT:-9000}:9000".to_string()));
    assert_eq!(
        entry.host_ip, None,
        "the ${{...}} default syntax must not be mistaken for a host-IP restriction"
    );
    assert!(entry.has_explicit_host_port);
}

#[test]
fn env_var_default_syntax_combined_with_a_real_host_ip_still_parses() {
    let entry = parse_port_entry(&YamlNode::Str(
        "127.0.0.1:${API_PORT:-9000}:9000".to_string(),
    ));
    assert_eq!(entry.host_ip.as_deref(), Some("127.0.0.1"));
}

#[test]
fn privileged_defaults_to_false_when_absent() {
    let yaml = "services:\n  web:\n    image: nginx:1.25\n";
    let services = parse_services(yaml).unwrap();
    assert!(!services[0].privileged);
}
