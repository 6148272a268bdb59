//! A linter for common `docker-compose.yml` misconfigurations: floating
//! image tags, missing restart policies, host networking, privileged
//! containers and ports published on every host interface.

pub mod parser;
pub mod ports;
pub mod report;
pub mod rules;
pub mod text;
pub mod yaml;

pub use rules::{Finding, Severity};

use vstd::prelude::*;

use parser::{document_services, invalid_yaml_message, parse_services, services_of};
use rules::{
    findings_view, flags_missing_restart, has_service_without_restart, lemma_lint_flags_missing_restart,
    lint, lint_spec,
};
use yaml::{yaml_document, yaml_error_message, YamlNode};

verus! {

/// What linting the Compose text `content` gives: the findings of its
/// services, or the message of why it could not be read.
pub open spec fn lint_outcome(r: Result<Vec<Finding>, String>, content: Seq<char>) -> bool {
    match yaml_document(content) {
        Some(doc) => match document_services(doc) {
            Ok(services) => r matches Ok(f) && findings_view(f@) == lint_spec(services),
            Err(m) => r matches Err(e) && e@ == m,
        },
        None => r matches Err(e) && e@ == invalid_yaml_message(yaml_error_message(content)),
    }
}

/// Parses and lints raw Compose YAML text in one call.
pub fn lint_compose(content: &str) -> (r: Result<Vec<Finding>, String>)
    ensures
        lint_outcome(r, content@),
{
    match parse_services(content) {
        Ok(services) => Ok(lint(services.as_slice())),
        Err(e) => Err(e),
    }
}


/// The entries of a document's `services:` mapping; empty where it has none.
pub open spec fn service_entries(doc: YamlNode) -> Seq<(YamlNode, YamlNode)> {
    match doc.get_spec("services"@) {
        Some(services) => match services.entries_of() {
            Some(entries) => entries,
            None => Seq::empty(),
        },
        None => Seq::empty(),
    }
}

/// Some entry of `entries` has a key that reads as `name` and a value with
/// no `restart` key.
pub open spec fn has_entry_without_restart(entries: Seq<(YamlNode, YamlNode)>, name: Seq<char>) -> bool {
    exists|j: int|
        0 <= j < entries.len() && #[trigger] entries[j].0.str_of() == Some(name)
            && entries[j].1.get_spec("restart"@) is None
}

proof fn lemma_services_without_restart(entries: Seq<(YamlNode, YamlNode)>, name: Seq<char>)
    requires
        name.len() > 0,
    ensures
        has_service_without_restart(services_of(entries), name) == has_entry_without_restart(
            entries,
            name,
        ),
    decreases entries.len(),
{
    if entries.len() > 0 {
        let init = entries.drop_last();
        let last = entries.last();
        lemma_services_without_restart(init, name);
        let rest = services_of(init);
        let all = services_of(entries);
        if has_service_without_restart(rest, name) {
            let j = choose|j: int|
                0 <= j < rest.len() && #[trigger] rest[j].name == name && rest[j].restart is None;
            assert(all[j] == rest[j]);
            let k = choose|k: int|
                0 <= k < init.len() && #[trigger] init[k].0.str_of() == Some(name)
                    && init[k].1.get_spec("restart"@) is None;
            assert(entries[k] == init[k]);
        }
        if has_entry_without_restart(entries, name) {
            let k = choose|k: int|
                0 <= k < entries.len() && #[trigger] entries[k].0.str_of() == Some(name)
                    && entries[k].1.get_spec("restart"@) is None;
            if k < init.len() {
                assert(init[k] == entries[k]);
            } else {
                assert(all.last().name == name);
                assert(all[all.len() - 1].restart is None);
            }
        }
        if has_service_without_restart(all, name) {
            let j = choose|j: int|
                0 <= j < all.len() && #[trigger] all[j].name == name && all[j].restart is None;
            if j < rest.len() {
                assert(rest[j] == all[j]);
            } else {
                assert(entries[entries.len() - 1] == last);
            }
        }
    }
}

/// In a Compose document, a no-restart-policy finding is reported against
/// the service named `name` exactly when an entry of `services:` whose key
/// reads as `name` has no `restart` key at all; any value of the key, even
/// `"no"`, `null` or `false`, is a deliberate decision. (A tagged key and a
/// plain key can both read as `name`; each names a service of its own.)
pub proof fn lemma_document_restart_law(doc: YamlNode, name: Seq<char>)
    requires
        document_services(doc) is Ok,
        name.len() > 0,
    ensures
        document_services(doc) == Ok::<Seq<parser::ServiceView>, Seq<char>>(
            services_of(service_entries(doc)),
        ),
        flags_missing_restart(lint_spec(services_of(service_entries(doc))), name)
            == has_entry_without_restart(service_entries(doc), name),
{
    lemma_lint_flags_missing_restart(services_of(service_entries(doc)), name);
    lemma_services_without_restart(service_entries(doc), name);
}


/// Linting a YAML document with no top-level `services` key is an error
/// that says so, never a clean result; a lint that succeeds read a
/// document whose `services` key holds a mapping.
pub proof fn lemma_lint_needs_services(r: Result<Vec<Finding>, String>, content: Seq<char>)
    requires
        lint_outcome(r, content),
    ensures
        (yaml_document(content) matches Some(doc) && doc.get_spec("services"@) is None) ==> (r matches Err(
            e,
        ) && e@ == "no top-level 'services' key found"@),
        r is Ok ==> (yaml_document(content) matches Some(doc) && doc.get_spec(
            "services"@,
        ) matches Some(services) && services.entries_of() is Some),
{
}

} // verus!
