//! Just enough of the Compose file schema to lint it: a walk over the
//! generic YAML document rather than a strict-schema read, so a compose
//! file using fields this tool does not know about still parses.

use vstd::prelude::*;

use crate::ports::{port_fields, split_port_string};
use crate::text::{trim, trimmed};
use crate::yaml::{
    emit_yaml, lookup, lookup_entry, parse_yaml, yaml_document, yaml_emitted, yaml_error_message,
    YamlNode,
};

verus! {

/// One `ports:` list entry, normalized out of Compose's two syntaxes
/// (short string form, long mapping form).
#[derive(Debug, Clone, PartialEq, Eq)]
pub struct PortEntry {
    pub raw: String,
    pub host_ip: Option<String>,
    /// `false` for the short bare-port form (`"5432"`, no colon at all),
    /// which publishes to a random host port: a lower-risk shape than a
    /// fixed host port with no IP restriction, and not linted the same way.
    pub has_explicit_host_port: bool,
}

/// One `services.<name>` entry, with only the fields the rules look at.
#[derive(Debug, Clone, Default)]
pub struct Service {
    pub name: String,
    pub image: Option<String>,
    pub restart: Option<String>,
    pub network_mode: Option<String>,
    pub privileged: bool,
    pub ports: Vec<PortEntry>,
}

/// The contents of a `PortEntry`.
pub struct PortEntryView {
    pub raw: Seq<char>,
    pub host_ip: Option<Seq<char>>,
    pub has_explicit_host_port: bool,
}

/// The contents of a `Service`.
pub struct ServiceView {
    pub name: Seq<char>,
    pub image: Option<Seq<char>>,
    pub restart: Option<Seq<char>>,
    pub network_mode: Option<Seq<char>>,
    pub privileged: bool,
    pub ports: Seq<PortEntryView>,
}

/// The contents of an optional string.
pub open spec fn opt_view(o: Option<String>) -> Option<Seq<char>> {
    match o {
        Some(s) => Some(s@),
        None => None,
    }
}

impl View for PortEntry {
    type V = PortEntryView;

    open spec fn view(&self) -> PortEntryView {
        PortEntryView {
            raw: self.raw@,
            host_ip: opt_view(self.host_ip),
            has_explicit_host_port: self.has_explicit_host_port,
        }
    }
}

/// The contents of a list of port entries.
pub open spec fn ports_view(ports: Seq<PortEntry>) -> Seq<PortEntryView> {
    ports.map_values(|p: PortEntry| p@)
}

impl View for Service {
    type V = ServiceView;

    open spec fn view(&self) -> ServiceView {
        ServiceView {
            name: self.name@,
            image: opt_view(self.image),
            restart: opt_view(self.restart),
            network_mode: opt_view(self.network_mode),
            privileged: self.privileged,
            ports: ports_view(self.ports@),
        }
    }
}

/// The contents of a list of services.
pub open spec fn services_view(services: Seq<Service>) -> Seq<ServiceView> {
    services.map_values(|s: Service| s@)
}

/// The YAML text written for `node`, trimmed; empty where writing fails.
pub open spec fn emitted_text(node: YamlNode) -> Seq<char> {
    match yaml_emitted(node) {
        Some(t) => trimmed(t),
        None => Seq::empty(),
    }
}

/// The port entry that a `ports:` list item describes. A mapping is the
/// long form: its `host_ip` key, if a string, restricts the host IP, and it
/// fixes a host port when it has a `published` key; without one, Compose
/// picks an ephemeral host port. Anything else is the short form: a string, a
/// number's text or the item's YAML text, cut into `:`-separated fields;
/// one field is a bare container port, three lead with the host IP.
pub open spec fn port_entry_of(item: YamlNode) -> PortEntryView {
    match item.entries_of() {
        Some(entries) => PortEntryView {
            raw: emitted_text(item),
            host_ip: match lookup_entry(entries, "host_ip"@) {
                Some(v) => v.str_of(),
                None => None,
            },
            has_explicit_host_port: lookup_entry(entries, "published"@) is Some,
        },
        None => {
            let raw = match item {
                YamlNode::Str(s) => s@,
                YamlNode::Number(t) => t@,
                _ => emitted_text(item),
            };
            let fields = port_fields(raw);
            PortEntryView {
                raw,
                host_ip: if fields.len() == 3 { Some(fields[0]) } else { None },
                has_explicit_host_port: fields.len() != 1,
            }
        },
    }
}

/// The string under `key` in the service mapping `svc`, if there is one.
pub open spec fn string_field(svc: YamlNode, key: Seq<char>) -> Option<Seq<char>> {
    match svc.get_spec(key) {
        Some(v) => v.str_of(),
        None => None,
    }
}

/// The value under `key` in the service mapping `svc`, as text: a string
/// itself, anything else its trimmed YAML text; `None` only where the key
/// is absent.
pub open spec fn present_field(svc: YamlNode, key: Seq<char>) -> Option<Seq<char>> {
    match svc.get_spec(key) {
        Some(v) => Some(
            match v.str_of() {
                Some(s) => s,
                None => emitted_text(v),
            },
        ),
        None => None,
    }
}

/// The service named `name` that the YAML node `svc` describes. Its
/// `restart` is `None` only where the key is absent: any value, `null` or
/// `false` included, is an explicit policy.
pub open spec fn service_of(name: Seq<char>, svc: YamlNode) -> ServiceView {
    ServiceView {
        name,
        image: string_field(svc, "image"@),
        restart: present_field(svc, "restart"@),
        network_mode: string_field(svc, "network_mode"@),
        privileged: match svc.get_spec("privileged"@) {
            Some(v) => match v.bool_of() {
                Some(b) => b,
                None => false,
            },
            None => false,
        },
        ports: match svc.get_spec("ports"@) {
            Some(v) => match v.items_of() {
                Some(items) => items.map_values(|item: YamlNode| port_entry_of(item)),
                None => Seq::empty(),
            },
            None => Seq::empty(),
        },
    }
}

/// The services of the `services:` mapping's entries, in order; an entry
/// whose key is not a non-empty string is skipped.
pub open spec fn services_of(entries: Seq<(YamlNode, YamlNode)>) -> Seq<ServiceView>
    decreases entries.len(),
{
    if entries.len() == 0 {
        Seq::empty()
    } else {
        let rest = services_of(entries.drop_last());
        let name = match entries.last().0.str_of() {
            Some(s) => s,
            None => Seq::empty(),
        };
        if name.len() == 0 {
            rest
        } else {
            rest.push(service_of(name, entries.last().1))
        }
    }
}

/// The services of a Compose document, or the reason it has none.
pub open spec fn document_services(doc: YamlNode) -> Result<Seq<ServiceView>, Seq<char>> {
    match doc.get_spec("services"@) {
        None => Err("no top-level 'services' key found"@),
        Some(services) => match services.entries_of() {
            None => Err("'services' is not a mapping"@),
            Some(entries) => Ok(services_of(entries)),
        },
    }
}

/// The contents of a parse outcome.
pub open spec fn outcome_view(r: Result<Vec<Service>, String>) -> Result<Seq<ServiceView>, Seq<char>> {
    match r {
        Ok(v) => Ok(services_view(v@)),
        Err(e) => Err(e@),
    }
}

/// The trimmed YAML text of `node`; empty where writing it fails.
fn emitted_trimmed(node: &YamlNode) -> (r: String)
    ensures
        r@ == emitted_text(*node),
{
    match emit_yaml(node) {
        Some(t) => trim(t.as_str()),
        None => String::new(),
    }
}

/// Reads one `ports:` list item.
pub fn parse_port_entry(item: &YamlNode) -> (r: PortEntry)
    ensures
        r@ == port_entry_of(*item),
{
    if let Some(entries) = item.as_mapping() {
        let host_ip = match lookup(entries, "host_ip") {
            Some(v) => match v.as_str() {
                Some(s) => Some(s.clone()),
                None => None,
            },
            None => None,
        };
        let published = lookup(entries, "published").is_some();
        let raw = emitted_trimmed(item);
        return PortEntry { raw, host_ip, has_explicit_host_port: published };
    }
    let raw = match item {
        YamlNode::Str(s) => s.clone(),
        YamlNode::Number(t) => t.clone(),
        _ => emitted_trimmed(item),
    };
    let parts = split_port_string(raw.as_str());
    let count = parts.len();
    let host_ip = if count == 3 {
        Some(parts[0].to_owned())
    } else {
        None
    };
    PortEntry { raw, host_ip, has_explicit_host_port: count != 1 }
}

/// The string under `key` in the service mapping `svc`, copied.
fn string_value(svc: &YamlNode, key: &str) -> (r: Option<String>)
    ensures
        opt_view(r) == string_field(*svc, key@),
{
    match svc.get(key) {
        Some(v) => match v.as_str() {
            Some(s) => Some(s.clone()),
            None => None,
        },
        None => None,
    }
}

/// The value under `key` in the service mapping `svc`, as text.
fn present_value(svc: &YamlNode, key: &str) -> (r: Option<String>)
    ensures
        opt_view(r) == present_field(*svc, key@),
{
    match svc.get(key) {
        Some(v) => Some(
            match v.as_str() {
                Some(s) => s.clone(),
                None => emitted_trimmed(v),
            },
        ),
        None => None,
    }
}

/// Reads the entries of a `ports:` list.
fn parse_port_list(items: &Vec<YamlNode>) -> (r: Vec<PortEntry>)
    ensures
        ports_view(r@) == items@.map_values(|item: YamlNode| port_entry_of(item)),
{
    let mut out: Vec<PortEntry> = Vec::new();
    let n = items.len();
    let mut i: usize = 0;
    while i < n
        invariant
            n == items@.len(),
            i <= n,
            ports_view(out@) =~= items@.take(i as int).map_values(
                |item: YamlNode| port_entry_of(item),
            ),
        decreases n - i,
    {
        let entry = parse_port_entry(&items[i]);
        let ghost before = out@;
        out.push(entry);
        proof {
            assert(items@.take(i + 1) =~= items@.take(i as int).push(items@[i as int]));
            assert(ports_view(out@) =~= ports_view(before).push(entry@));
        }
        i = i + 1;
    }
    proof {
        assert(items@.take(n as int) =~= items@);
    }
    out
}

/// Reads the service named `name` from its YAML node.
pub fn parse_service(name: String, svc: &YamlNode) -> (r: Service)
    ensures
        r@ == service_of(name@, *svc),
{
    let image = string_value(svc, "image");
    let restart = present_value(svc, "restart");
    let network_mode = string_value(svc, "network_mode");
    let privileged = match svc.get("privileged") {
        Some(v) => match v.as_bool() {
            Some(b) => b,
            None => false,
        },
        None => false,
    };
    let ports = match svc.get("ports") {
        Some(v) => match v.as_sequence() {
            Some(items) => parse_port_list(items),
            None => Vec::new(),
        },
        None => Vec::new(),
    };
    proof {
        if ports@.len() == 0 {
            assert(ports_view(ports@) =~= Seq::empty());
        }
    }
    Service { name, image, restart, network_mode, privileged, ports }
}

/// Reads the services of a parsed Compose document, in declaration order.
pub fn services_from_document(doc: &YamlNode) -> (r: Result<Vec<Service>, String>)
    ensures
        outcome_view(r) == document_services(*doc),
{
    let services = match doc.get("services") {
        Some(v) => v,
        None => return Err("no top-level 'services' key found".to_owned()),
    };
    let entries = match services.as_mapping() {
        Some(entries) => entries,
        None => return Err("'services' is not a mapping".to_owned()),
    };
    let mut out: Vec<Service> = Vec::new();
    let n = entries.len();
    let mut i: usize = 0;
    while i < n
        invariant
            n == entries@.len(),
            i <= n,
            services_view(out@) =~= services_of(entries@.take(i as int)),
        decreases n - i,
    {
        proof {
            assert(entries@.take(i + 1).drop_last() =~= entries@.take(i as int));
        }
        let name = match entries[i].0.as_str() {
            Some(s) => s.clone(),
            None => String::new(),
        };
        if name.as_str().unicode_len() != 0 {
            let svc = parse_service(name, &entries[i].1);
            out.push(svc);
        }
        i = i + 1;
    }
    proof {
        assert(entries@.take(n as int) =~= entries@);
    }
    Ok(out)
}

/// The message of a document that is not valid YAML.
pub open spec fn invalid_yaml_message(detail: Seq<char>) -> Seq<char> {
    "not valid YAML: "@ + detail
}

/// Parses a full Compose YAML document into its services, in declaration
/// order.
pub fn parse_services(content: &str) -> (r: Result<Vec<Service>, String>)
    ensures
        match yaml_document(content@) {
            Some(doc) => outcome_view(r) == document_services(doc),
            None => r matches Err(m) && m@ == invalid_yaml_message(yaml_error_message(content@)),
        },
{
    match parse_yaml(content) {
        Ok(doc) => services_from_document(&doc),
        Err(detail) => {
            let mut msg = "not valid YAML: ".to_owned();
            msg.append(detail.as_str());
            Err(msg)
        },
    }
}


/// Every service read from a `services:` mapping has a non-empty name, and
/// there are no more services than entries.
pub proof fn lemma_service_names_nonempty(entries: Seq<(YamlNode, YamlNode)>)
    ensures
        services_of(entries).len() <= entries.len(),
        forall|i: int|
            0 <= i < services_of(entries).len() ==> #[trigger] services_of(entries)[i].name.len()
                > 0,
    decreases entries.len(),
{
    if entries.len() > 0 {
        lemma_service_names_nonempty(entries.drop_last());
        let rest = services_of(entries.drop_last());
        assert forall|i: int| 0 <= i < services_of(entries).len() implies #[trigger] services_of(
            entries,
        )[i].name.len() > 0 by {
            if i < rest.len() {
                assert(services_of(entries)[i] == rest[i]);
            }
        }
    }
}

} // verus!
