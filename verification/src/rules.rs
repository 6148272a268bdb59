//! The five misconfigurations this tool exists to catch, one function each.

use vstd::prelude::*;

use crate::parser::{service_of, services_view, PortEntry, PortEntryView, Service, ServiceView};
use crate::yaml::YamlNode;
use crate::text::{
    contains_char, find_first, find_last, first_index_of, last_index_of, lemma_first_index_at,
    lemma_index_of, lemma_last_index_at, str_eq,
};

verus! {

/// How serious a finding is.
#[derive(Debug, Clone, Copy, PartialEq, Eq, Structural)]
pub enum Severity {
    Warning,
    Error,
}

/// One rule violated by one service.
#[derive(Debug, Clone, PartialEq, Eq)]
pub struct Finding {
    pub service: String,
    pub rule: &'static str,
    pub severity: Severity,
    pub message: String,
}

/// The contents of a `Finding`.
pub struct FindingView {
    pub service: Seq<char>,
    pub rule: Seq<char>,
    pub severity: Severity,
    pub message: Seq<char>,
}

impl View for Finding {
    type V = FindingView;

    open spec fn view(&self) -> FindingView {
        FindingView {
            service: self.service@,
            rule: self.rule@,
            severity: self.severity,
            message: self.message@,
        }
    }
}

/// The contents of a list of findings.
pub open spec fn findings_view(findings: Seq<Finding>) -> Seq<FindingView> {
    findings.map_values(|f: Finding| f@)
}

/// A finding of `rule` at `severity` against the service `svc`.
pub open spec fn finding(svc: ServiceView, rule: Seq<char>, severity: Severity, message: Seq<char>) -> FindingView {
    FindingView { service: svc.name, rule, severity, message }
}

/// The last `/`-separated segment of an image reference.
pub open spec fn last_segment(image: Seq<char>) -> Seq<char> {
    image.skip(last_index_of(image, '/') + 1)
}

/// The tag of an image reference: what follows the first `:` of its last
/// segment, if that segment has one.
pub open spec fn image_tag(image: Seq<char>) -> Option<Seq<char>> {
    let seg = last_segment(image);
    let i = first_index_of(seg, ':');
    if i < 0 {
        None
    } else {
        Some(seg.skip(i + 1))
    }
}

/// Message for an image with no tag.
pub open spec fn no_tag_message(image: Seq<char>) -> Seq<char> {
    "image '"@ + image
        + "' has no tag — pin an explicit version instead of floating on whatever 'latest' resolves to today"@
}

/// Message for an image pinned to `latest`.
pub open spec fn latest_tag_message(image: Seq<char>) -> Seq<char> {
    "image '"@ + image
        + "' is explicitly pinned to 'latest', which is exactly as unreproducible as no tag at all"@
}

/// Findings of the unpinned-image rule: an image with no tag, or tagged
/// `latest`. A service with no image, an image pinned by digest (`@`) or
/// one holding a `$` variable is left alone.
pub open spec fn unpinned_image_findings(svc: ServiceView) -> Seq<FindingView> {
    match svc.image {
        None => Seq::empty(),
        Some(image) => if image.contains('$') || image.contains('@') {
            Seq::empty()
        } else {
            match image_tag(image) {
                None => seq![finding(svc, "unpinned-image"@, Severity::Warning, no_tag_message(image))],
                Some(tag) => if tag == "latest"@ {
                    seq![finding(svc, "unpinned-image"@, Severity::Warning, latest_tag_message(image))]
                } else {
                    Seq::empty()
                },
            }
        },
    }
}

/// Message for a service with no restart policy.
pub open spec fn no_restart_message() -> Seq<char> {
    "no restart policy set — the container won't come back on its own after a crash or a host reboot"@
}

/// Findings of the no-restart-policy rule: the service has no `restart`
/// policy (a parsed service has none only where the `restart` key is
/// absent). Any value, `"no"` included, counts as a decision.
pub open spec fn no_restart_policy_findings(svc: ServiceView) -> Seq<FindingView> {
    if svc.restart is Some {
        Seq::empty()
    } else {
        seq![finding(svc, "no-restart-policy"@, Severity::Warning, no_restart_message())]
    }
}

/// Message for a service on the host network.
pub open spec fn host_network_message() -> Seq<char> {
    "network_mode: host shares the host's network namespace directly, bypassing container network isolation"@
}

/// Findings of the host-network-mode rule: `network_mode` is `host`.
pub open spec fn host_network_mode_findings(svc: ServiceView) -> Seq<FindingView> {
    if svc.network_mode == Some("host"@) {
        seq![finding(svc, "host-network-mode"@, Severity::Warning, host_network_message())]
    } else {
        Seq::empty()
    }
}

/// Message for a privileged service.
pub open spec fn privileged_message() -> Seq<char> {
    "privileged: true grants near-full host access — scope down to specific capabilities with cap_add instead"@
}

/// Findings of the privileged-container rule, the one rule at error severity.
pub open spec fn privileged_findings(svc: ServiceView) -> Seq<FindingView> {
    if svc.privileged {
        seq![finding(svc, "privileged-container"@, Severity::Error, privileged_message())]
    } else {
        Seq::empty()
    }
}

/// Message for a port published on every host interface.
pub open spec fn unbound_port_message(raw: Seq<char>) -> Seq<char> {
    "port mapping '"@ + raw
        + "' publishes to every host interface — bind a specific host IP (e.g. 127.0.0.1) unless this genuinely needs to be reachable from outside the host"@
}

/// A port entry publishes a fixed host port on every host interface: no
/// host IP, an empty one, or `0.0.0.0`.
pub open spec fn is_unbound(port: PortEntryView) -> bool {
    &&& port.has_explicit_host_port
    &&& match port.host_ip {
        None => true,
        Some(ip) => ip == "0.0.0.0"@ || ip.len() == 0,
    }
}

/// Findings of the unbound-published-port rule over the first `n` ports.
pub open spec fn unbound_port_findings_upto(svc: ServiceView, n: int) -> Seq<FindingView>
    decreases n,
{
    if n <= 0 {
        Seq::empty()
    } else {
        let rest = unbound_port_findings_upto(svc, n - 1);
        let port = svc.ports[n - 1];
        if is_unbound(port) {
            rest.push(finding(svc, "unbound-published-port"@, Severity::Warning, unbound_port_message(port.raw)))
        } else {
            rest
        }
    }
}

/// Findings of the unbound-published-port rule, one per offending port, in
/// the order of `ports:`.
pub open spec fn unbound_port_findings(svc: ServiceView) -> Seq<FindingView> {
    unbound_port_findings_upto(svc, svc.ports.len() as int)
}

/// Every finding against one service, in rule order.
pub open spec fn service_findings(svc: ServiceView) -> Seq<FindingView> {
    unpinned_image_findings(svc) + no_restart_policy_findings(svc) + host_network_mode_findings(svc)
        + privileged_findings(svc) + unbound_port_findings(svc)
}

/// Every finding against a list of services, in service order.
pub open spec fn lint_spec(services: Seq<ServiceView>) -> Seq<FindingView>
    decreases services.len(),
{
    if services.len() == 0 {
        Seq::empty()
    } else {
        lint_spec(services.drop_last()) + service_findings(services.last())
    }
}

/// A finding against the service `svc`.
fn make_finding(svc: &Service, rule: &'static str, severity: Severity, message: String) -> (r: Finding)
    ensures
        r@ == finding(svc@, rule@, severity, message@),
{
    Finding { service: svc.name.clone(), rule, severity, message }
}

/// A one-finding list.
fn single(f: Finding) -> (r: Vec<Finding>)
    ensures
        findings_view(r@) == seq![f@],
{
    let mut v: Vec<Finding> = Vec::new();
    v.push(f);
    proof {
        assert(findings_view(v@) =~= seq![f@]);
    }
    v
}

/// An empty list of findings.
fn none() -> (r: Vec<Finding>)
    ensures
        findings_view(r@) == Seq::<FindingView>::empty(),
{
    let v: Vec<Finding> = Vec::new();
    proof {
        assert(findings_view(v@) =~= Seq::<FindingView>::empty());
    }
    v
}

/// Rule: an image with no tag (implicitly `latest`) or tagged `latest`.
pub fn check_unpinned_image(svc: &Service) -> (r: Vec<Finding>)
    ensures
        findings_view(r@) == unpinned_image_findings(svc@),
{
    let image = match &svc.image {
        Some(image) => image,
        None => return none(),
    };
    if contains_char(image.as_str(), '$') || contains_char(image.as_str(), '@') {
        return none();
    }
    let len = image.as_str().unicode_len();
    proof {
        crate::text::lemma_index_of(image@, '/');
    }
    let start: usize = match find_last(image.as_str(), '/') {
        Some(i) => i + 1,
        None => 0,
    };
    let seg = image.as_str().substring_char(start, len);
    proof {
        assert(seg@ =~= last_segment(image@));
    }
    match find_first(seg, ':') {
        None => {
            let mut message = "image '".to_owned();
            message.append(image.as_str());
            message.append(
                "' has no tag — pin an explicit version instead of floating on whatever 'latest' resolves to today",
            );
            single(make_finding(svc, "unpinned-image", Severity::Warning, message))
        },
        Some(i) => {
            let seg_len = seg.unicode_len();
            proof {
                crate::text::lemma_index_of(seg@, ':');
            }
            let tag = seg.substring_char(i + 1, seg_len);
            proof {
                assert(tag@ =~= seg@.skip(i + 1));
            }
            if str_eq(tag, "latest") {
                let mut message = "image '".to_owned();
                message.append(image.as_str());
                message.append(
                    "' is explicitly pinned to 'latest', which is exactly as unreproducible as no tag at all",
                );
                single(make_finding(svc, "unpinned-image", Severity::Warning, message))
            } else {
                none()
            }
        },
    }
}

/// Rule: no `restart` policy set.
pub fn check_no_restart_policy(svc: &Service) -> (r: Vec<Finding>)
    ensures
        findings_view(r@) == no_restart_policy_findings(svc@),
{
    if svc.restart.is_some() {
        return none();
    }
    let message =
        "no restart policy set — the container won't come back on its own after a crash or a host reboot".to_owned();
    single(make_finding(svc, "no-restart-policy", Severity::Warning, message))
}

/// Rule: `network_mode: host`, which shares the host's network namespace.
pub fn check_host_network_mode(svc: &Service) -> (r: Vec<Finding>)
    ensures
        findings_view(r@) == host_network_mode_findings(svc@),
{
    match &svc.network_mode {
        Some(mode) => {
            if str_eq(mode.as_str(), "host") {
                let message =
                    "network_mode: host shares the host's network namespace directly, bypassing container network isolation".to_owned();
                single(make_finding(svc, "host-network-mode", Severity::Warning, message))
            } else {
                none()
            }
        },
        None => none(),
    }
}

/// Rule: `privileged: true`, which grants effectively all host capabilities.
pub fn check_privileged(svc: &Service) -> (r: Vec<Finding>)
    ensures
        findings_view(r@) == privileged_findings(svc@),
{
    if svc.privileged {
        let message =
            "privileged: true grants near-full host access — scope down to specific capabilities with cap_add instead".to_owned();
        single(make_finding(svc, "privileged-container", Severity::Error, message))
    } else {
        none()
    }
}

/// Whether a port entry publishes a fixed host port on every interface.
fn port_is_unbound(port: &PortEntry) -> (r: bool)
    ensures
        r == is_unbound(port@),
{
    if !port.has_explicit_host_port {
        return false;
    }
    match &port.host_ip {
        None => true,
        Some(ip) => str_eq(ip.as_str(), "0.0.0.0") || ip.as_str().unicode_len() == 0,
    }
}

/// Rule: a published port with a fixed host port and no host-IP
/// restriction binds to every interface on the host. The bare single-number
/// short form, where Compose picks an ephemeral host port, is not flagged.
pub fn check_unbound_published_ports(svc: &Service) -> (r: Vec<Finding>)
    ensures
        findings_view(r@) == unbound_port_findings(svc@),
{
    let mut findings: Vec<Finding> = Vec::new();
    let n = svc.ports.len();
    let mut i: usize = 0;
    while i < n
        invariant
            n == svc.ports@.len(),
            n == svc@.ports.len(),
            i <= n,
            findings_view(findings@) =~= unbound_port_findings_upto(svc@, i as int),
        decreases n - i,
    {
        let port = &svc.ports[i];
        proof {
            assert(svc@.ports[i as int] == port@);
        }
        if port_is_unbound(port) {
            let mut message = "port mapping '".to_owned();
            message.append(port.raw.as_str());
            message.append(
                "' publishes to every host interface — bind a specific host IP (e.g. 127.0.0.1) unless this genuinely needs to be reachable from outside the host",
            );
            let f = make_finding(svc, "unbound-published-port", Severity::Warning, message);
            let ghost before = findings@;
            findings.push(f);
            proof {
                assert(findings_view(findings@) =~= findings_view(before).push(f@));
            }
        }
        i = i + 1;
    }
    findings
}

/// Moves every finding of `more` to the end of `acc`.
fn append_findings(acc: &mut Vec<Finding>, more: Vec<Finding>)
    ensures
        findings_view(final(acc)@) == findings_view(old(acc)@) + findings_view(more@),
{
    let mut more = more;
    let ghost a = acc@;
    let ghost m = more@;
    acc.append(&mut more);
    proof {
        assert(findings_view(acc@) =~= findings_view(a) + findings_view(m));
    }
}

/// Runs every rule over every service; findings come in service
/// declaration order, rule order within a service.
pub fn lint(services: &[Service]) -> (r: Vec<Finding>)
    ensures
        findings_view(r@) == lint_spec(services_view(services@)),
{
    let mut findings: Vec<Finding> = Vec::new();
    let n = services.len();
    let mut i: usize = 0;
    while i < n
        invariant
            n == services@.len(),
            i <= n,
            findings_view(findings@) =~= lint_spec(services_view(services@.take(i as int))),
        decreases n - i,
    {
        let svc = &services[i];
        proof {
            assert(services_view(services@.take(i + 1)).drop_last() =~= services_view(
                services@.take(i as int),
            ));
            assert(services_view(services@.take(i + 1)).last() == svc@);
        }
        append_findings(&mut findings, check_unpinned_image(svc));
        append_findings(&mut findings, check_no_restart_policy(svc));
        append_findings(&mut findings, check_host_network_mode(svc));
        append_findings(&mut findings, check_privileged(svc));
        append_findings(&mut findings, check_unbound_published_ports(svc));
        i = i + 1;
    }
    proof {
        assert(services@.take(n as int) =~= services@);
    }
    findings
}


/// The five rule names.
pub open spec fn is_rule_name(rule: Seq<char>) -> bool {
    ||| rule == "unpinned-image"@
    ||| rule == "no-restart-policy"@
    ||| rule == "host-network-mode"@
    ||| rule == "privileged-container"@
    ||| rule == "unbound-published-port"@
}

/// A finding against `svc` of one of the five rules, at error severity
/// exactly when it is the privileged-container rule.
pub open spec fn well_formed_finding(f: FindingView, svc: ServiceView) -> bool {
    &&& f.service == svc.name
    &&& is_rule_name(f.rule)
    &&& (f.severity == Severity::Error) == (f.rule == "privileged-container"@)
}

proof fn lemma_rule_names_differ()
    ensures
        "privileged-container"@ != "unpinned-image"@,
        "privileged-container"@ != "no-restart-policy"@,
        "privileged-container"@ != "host-network-mode"@,
        "privileged-container"@ != "unbound-published-port"@,
{
    reveal_strlit("privileged-container");
    reveal_strlit("unpinned-image");
    reveal_strlit("no-restart-policy");
    reveal_strlit("host-network-mode");
    reveal_strlit("unbound-published-port");
    assert("privileged-container"@.len() != "unpinned-image"@.len());
    assert("privileged-container"@.len() != "no-restart-policy"@.len());
    assert("privileged-container"@.len() != "host-network-mode"@.len());
    assert("privileged-container"@[0] != "unbound-published-port"@[0]);
}

proof fn lemma_port_findings_well_formed(svc: ServiceView, n: int)
    ensures
        forall|i: int|
            0 <= i < unbound_port_findings_upto(svc, n).len() ==> well_formed_finding(
                #[trigger] unbound_port_findings_upto(svc, n)[i],
                svc,
            ),
    decreases n,
{
    lemma_rule_names_differ();
    if n > 0 {
        lemma_port_findings_well_formed(svc, n - 1);
        let rest = unbound_port_findings_upto(svc, n - 1);
        let all = unbound_port_findings_upto(svc, n);
        assert forall|i: int| 0 <= i < all.len() implies well_formed_finding(
            #[trigger] all[i],
            svc,
        ) by {
            if i < rest.len() {
                assert(all[i] == rest[i]);
            }
        }
    }
}

/// Every finding against one service names that service and one of the
/// five rules, and is an error exactly when it is the privileged rule.
pub proof fn lemma_service_findings_well_formed(svc: ServiceView)
    ensures
        forall|i: int|
            0 <= i < service_findings(svc).len() ==> well_formed_finding(
                #[trigger] service_findings(svc)[i],
                svc,
            ),
{
    lemma_rule_names_differ();
    lemma_port_findings_well_formed(svc, svc.ports.len() as int);
    let a = unpinned_image_findings(svc);
    let b = no_restart_policy_findings(svc);
    let c = host_network_mode_findings(svc);
    let d = privileged_findings(svc);
    let e = unbound_port_findings(svc);
    assert forall|i: int| 0 <= i < service_findings(svc).len() implies well_formed_finding(
        #[trigger] service_findings(svc)[i],
        svc,
    ) by {
        let s = service_findings(svc);
        if i < a.len() {
            assert(s[i] == a[i]);
        } else if i < a.len() + b.len() {
            assert(s[i] == b[i - a.len()]);
        } else if i < a.len() + b.len() + c.len() {
            assert(s[i] == c[i - a.len() - b.len()]);
        } else if i < a.len() + b.len() + c.len() + d.len() {
            assert(s[i] == d[i - a.len() - b.len() - c.len()]);
        } else {
            assert(s[i] == e[i - a.len() - b.len() - c.len() - d.len()]);
        }
    }
}

/// Every finding of a lint run names one of the linted services and one of
/// the five rules, and only the privileged-container rule reports at error
/// severity; every other finding is a warning.
pub proof fn lemma_lint_findings_well_formed(services: Seq<ServiceView>)
    ensures
        forall|i: int|
            0 <= i < lint_spec(services).len() ==> exists|j: int|
                0 <= j < services.len() && well_formed_finding(
                    #[trigger] lint_spec(services)[i],
                    services[j],
                ),
    decreases services.len(),
{
    if services.len() > 0 {
        let init = services.drop_last();
        let last = services.last();
        lemma_lint_findings_well_formed(init);
        lemma_service_findings_well_formed(last);
        let a = lint_spec(init);
        let b = service_findings(last);
        assert forall|i: int| 0 <= i < lint_spec(services).len() implies exists|j: int|
            0 <= j < services.len() && well_formed_finding(
                #[trigger] lint_spec(services)[i],
                services[j],
            ) by {
            if i < a.len() {
                assert(lint_spec(services)[i] == a[i]);
                let j = choose|j: int| 0 <= j < init.len() && well_formed_finding(a[i], init[j]);
                assert(services[j] == init[j]);
            } else {
                assert(lint_spec(services)[i] == b[i - a.len()]);
                assert(well_formed_finding(b[i - a.len()], last));
                assert(services[services.len() - 1] == last);
            }
        }
    }
}

/// Linting two lists of services in turn gives the findings of linting
/// them together: findings follow the services' declaration order.
pub proof fn lemma_lint_concat(a: Seq<ServiceView>, b: Seq<ServiceView>)
    ensures
        lint_spec(a + b) == lint_spec(a) + lint_spec(b),
    decreases b.len(),
{
    if b.len() == 0 {
        assert(a + b =~= a);
        assert(lint_spec(a) + lint_spec(b) =~= lint_spec(a));
    } else {
        assert((a + b).drop_last() =~= a + b.drop_last());
        assert((a + b).last() == b.last());
        lemma_lint_concat(a, b.drop_last());
        assert(lint_spec(a + b) =~= lint_spec(a) + lint_spec(b));
    }
}

/// A lint run finds nothing exactly when every service passes every rule.
pub proof fn lemma_lint_clean(services: Seq<ServiceView>)
    ensures
        lint_spec(services).len() == 0 <==> forall|j: int|
            0 <= j < services.len() ==> #[trigger] service_findings(services[j]).len() == 0,
    decreases services.len(),
{
    if services.len() > 0 {
        let init = services.drop_last();
        lemma_lint_clean(init);
        assert forall|j: int| 0 <= j < init.len() implies #[trigger] init[j] == services[j] by {}
        if lint_spec(services).len() == 0 {
            assert forall|j: int| 0 <= j < services.len() implies #[trigger] service_findings(
                services[j],
            ).len() == 0 by {
                if j < init.len() {
                    assert(init[j] == services[j]);
                }
            }
        } else if forall|j: int|
            0 <= j < services.len() ==> #[trigger] service_findings(services[j]).len() == 0 {
            assert(service_findings(services[services.len() - 1]).len() == 0);
            assert forall|j: int| 0 <= j < init.len() implies #[trigger] service_findings(
                init[j],
            ).len() == 0 by {
                assert(init[j] == services[j]);
            }
        }
    }
}

/// The unbound-published-port rule reports one finding per port that
/// publishes a fixed host port on every interface, and none for any other
/// port, such as a bare container port or one bound to loopback.
pub proof fn lemma_one_finding_per_unbound_port(svc: ServiceView)
    ensures
        unbound_port_findings(svc).len() == svc.ports.filter(|p: PortEntryView| is_unbound(p)).len(),
{
    lemma_port_count(svc, svc.ports.len() as int);
    assert(svc.ports.take(svc.ports.len() as int) =~= svc.ports);
}

proof fn lemma_port_count(svc: ServiceView, n: int)
    requires
        0 <= n <= svc.ports.len(),
    ensures
        unbound_port_findings_upto(svc, n).len() == svc.ports.take(n).filter(
            |p: PortEntryView| is_unbound(p),
        ).len(),
    decreases n,
{
    reveal(Seq::filter);
    if n > 0 {
        lemma_port_count(svc, n - 1);
        assert(svc.ports.take(n).drop_last() =~= svc.ports.take(n - 1));
    }
}


/// A service read from a Compose document is flagged for having no restart
/// policy exactly when its mapping has no `restart` key; any value of the
/// key, `"no"`, `null` or `false` among them, counts as a decision.
pub proof fn lemma_restart_flagged_iff_key_absent(name: Seq<char>, svc: YamlNode)
    ensures
        (no_restart_policy_findings(service_of(name, svc)).len() > 0) == (svc.get_spec(
            "restart"@,
        ) is None),
{
}


/// The finding that the unbound-published-port rule reports for `port`.
pub open spec fn unbound_port_finding(svc: ServiceView, port: PortEntryView) -> FindingView {
    finding(svc, "unbound-published-port"@, Severity::Warning, unbound_port_message(port.raw))
}

proof fn lemma_unbound_prefix(svc: ServiceView, n: int)
    requires
        0 <= n <= svc.ports.len(),
    ensures
        unbound_port_findings_upto(svc, n) == svc.ports.take(n).filter(
            |p: PortEntryView| is_unbound(p),
        ).map_values(|p: PortEntryView| unbound_port_finding(svc, p)),
    decreases n,
{
    reveal(Seq::filter);
    let pred = |p: PortEntryView| is_unbound(p);
    let f = |p: PortEntryView| unbound_port_finding(svc, p);
    if n == 0 {
        assert(svc.ports.take(0).filter(pred) =~= Seq::<PortEntryView>::empty());
        assert(svc.ports.take(0).filter(pred).map_values(f) =~= Seq::<FindingView>::empty());
    } else {
        lemma_unbound_prefix(svc, n - 1);
        let t = svc.ports.take(n);
        assert(t.drop_last() =~= svc.ports.take(n - 1));
        assert(t.last() == svc.ports[n - 1]);
        let before = svc.ports.take(n - 1).filter(pred);
        if is_unbound(svc.ports[n - 1]) {
            assert(t.filter(pred) == before.push(svc.ports[n - 1]));
            assert(before.push(svc.ports[n - 1]).map_values(f) =~= before.map_values(f).push(
                f(svc.ports[n - 1]),
            ));
        } else {
            assert(t.filter(pred) == before);
        }
    }
}

/// The unbound-published-port findings follow the unbound ports one for
/// one, in port order: the k-th finding is for the k-th port that publishes
/// a fixed host port on every interface, and quotes that port's text.
pub proof fn lemma_unbound_findings_follow_ports(svc: ServiceView)
    ensures
        unbound_port_findings(svc) == svc.ports.filter(|p: PortEntryView| is_unbound(p)).map_values(
            |p: PortEntryView| unbound_port_finding(svc, p),
        ),
{
    lemma_unbound_prefix(svc, svc.ports.len() as int);
    assert(svc.ports.take(svc.ports.len() as int) =~= svc.ports);
}

/// Some finding in `findings` is a no-restart-policy finding against the
/// service named `name`.
pub open spec fn flags_missing_restart(findings: Seq<FindingView>, name: Seq<char>) -> bool {
    exists|i: int|
        0 <= i < findings.len() && #[trigger] findings[i].service == name && findings[i].rule
            == "no-restart-policy"@
}

/// Some service in `services` is named `name` and has no restart policy.
pub open spec fn has_service_without_restart(services: Seq<ServiceView>, name: Seq<char>) -> bool {
    exists|j: int| 0 <= j < services.len() && #[trigger] services[j].name == name && services[j].restart is None
}

proof fn lemma_flags_concat(a: Seq<FindingView>, b: Seq<FindingView>, name: Seq<char>)
    ensures
        flags_missing_restart(a + b, name) == (flags_missing_restart(a, name)
            || flags_missing_restart(b, name)),
{
    if flags_missing_restart(a + b, name) {
        let i = choose|i: int|
            0 <= i < (a + b).len() && #[trigger] (a + b)[i].service == name && (a + b)[i].rule
                == "no-restart-policy"@;
        if i < a.len() {
            assert(a[i] == (a + b)[i]);
        } else {
            assert(b[i - a.len()] == (a + b)[i]);
        }
    }
    if flags_missing_restart(a, name) {
        let i = choose|i: int|
            0 <= i < a.len() && #[trigger] a[i].service == name && a[i].rule == "no-restart-policy"@;
        assert((a + b)[i] == a[i]);
    }
    if flags_missing_restart(b, name) {
        let i = choose|i: int|
            0 <= i < b.len() && #[trigger] b[i].service == name && b[i].rule == "no-restart-policy"@;
        assert((a + b)[a.len() + i] == b[i]);
    }
}

proof fn lemma_other_rule_names_differ()
    ensures
        "no-restart-policy"@ != "unpinned-image"@,
        "no-restart-policy"@ != "host-network-mode"@,
        "no-restart-policy"@ != "privileged-container"@,
        "no-restart-policy"@ != "unbound-published-port"@,
{
    reveal_strlit("privileged-container");
    reveal_strlit("unpinned-image");
    reveal_strlit("no-restart-policy");
    reveal_strlit("host-network-mode");
    reveal_strlit("unbound-published-port");
    assert("no-restart-policy"@.len() != "unpinned-image"@.len());
    assert("no-restart-policy"@[0] != "host-network-mode"@[0]);
    assert("no-restart-policy"@.len() != "privileged-container"@.len());
    assert("no-restart-policy"@.len() != "unbound-published-port"@.len());
}

/// A service's findings hold a no-restart-policy finding against `name`
/// exactly when the service is named `name` and has no restart policy.
proof fn lemma_service_flags_missing_restart(svc: ServiceView, name: Seq<char>)
    ensures
        flags_missing_restart(service_findings(svc), name) == (svc.name == name && svc.restart is None),
{
    lemma_other_rule_names_differ();
    lemma_unbound_findings_follow_ports(svc);
    let a = unpinned_image_findings(svc);
    let b = no_restart_policy_findings(svc);
    let c = host_network_mode_findings(svc);
    let d = privileged_findings(svc);
    let e = unbound_port_findings(svc);
    lemma_flags_concat(a, b, name);
    lemma_flags_concat(a + b, c, name);
    lemma_flags_concat(a + b + c, d, name);
    lemma_flags_concat(a + b + c + d, e, name);
    assert(!flags_missing_restart(a, name)) by {
        if flags_missing_restart(a, name) {
            let i = choose|i: int|
                0 <= i < a.len() && #[trigger] a[i].service == name && a[i].rule == "no-restart-policy"@;
            assert(a[i].rule == "unpinned-image"@);
        }
    }
    assert(!flags_missing_restart(c, name)) by {
        if flags_missing_restart(c, name) {
            let i = choose|i: int|
                0 <= i < c.len() && #[trigger] c[i].service == name && c[i].rule == "no-restart-policy"@;
            assert(c[i].rule == "host-network-mode"@);
        }
    }
    assert(!flags_missing_restart(d, name)) by {
        if flags_missing_restart(d, name) {
            let i = choose|i: int|
                0 <= i < d.len() && #[trigger] d[i].service == name && d[i].rule == "no-restart-policy"@;
            assert(d[i].rule == "privileged-container"@);
        }
    }
    assert(!flags_missing_restart(e, name)) by {
        if flags_missing_restart(e, name) {
            let i = choose|i: int|
                0 <= i < e.len() && #[trigger] e[i].service == name && e[i].rule == "no-restart-policy"@;
            assert(e[i].rule == "unbound-published-port"@);
        }
    }
    if svc.name == name && svc.restart is None {
        assert(b[0].service == name);
    }
}

/// A lint run reports a missing restart policy against `name` exactly when
/// some linted service named `name` has no restart policy.
pub proof fn lemma_lint_flags_missing_restart(services: Seq<ServiceView>, name: Seq<char>)
    ensures
        flags_missing_restart(lint_spec(services), name) == has_service_without_restart(services, name),
    decreases services.len(),
{
    if services.len() == 0 {
        assert(!flags_missing_restart(lint_spec(services), name));
    } else {
        let init = services.drop_last();
        let last = services.last();
        lemma_lint_flags_missing_restart(init, name);
        lemma_flags_concat(lint_spec(init), service_findings(last), name);
        lemma_service_flags_missing_restart(last, name);
        if has_service_without_restart(init, name) {
            let j = choose|j: int|
                0 <= j < init.len() && #[trigger] init[j].name == name && init[j].restart is None;
            assert(services[j] == init[j]);
        }
        if has_service_without_restart(services, name) {
            let j = choose|j: int|
                0 <= j < services.len() && #[trigger] services[j].name == name && services[j].restart is None;
            if j < init.len() {
                assert(init[j] == services[j]);
            }
        }
        if last.name == name && last.restart is None {
            assert(services[services.len() - 1] == last);
        }
    }
}


/// The last segment of `prefix + seg`, where `prefix` ends in `/` (or is
/// empty) and `seg` holds no `/`, is `seg`.
proof fn lemma_last_segment_of(prefix: Seq<char>, seg: Seq<char>)
    requires
        prefix.len() == 0 || prefix.last() == '/',
        !seg.contains('/'),
    ensures
        last_segment(prefix + seg) == seg,
{
    let image = prefix + seg;
    assert forall|i: int| prefix.len() <= i < image.len() implies image[i] != '/' by {
        assert(image[i] == seg[i - prefix.len()]);
    }
    if prefix.len() == 0 {
        lemma_index_of(image, '/');
        assert(image =~= seg);
        assert(image.skip(0) =~= seg);
    } else {
        assert(image[prefix.len() - 1] == '/');
        lemma_last_index_at(image, '/', prefix.len() - 1);
        assert(image.skip(prefix.len() as int) =~= seg);
    }
}

/// `name + ":" + tag` with no `/` and no `:` in `name` has its tag after
/// the `:`.
proof fn lemma_segment_tag(name: Seq<char>, tag: Seq<char>)
    requires
        !name.contains('/'),
        !name.contains(':'),
        !tag.contains('/'),
    ensures
        !(name + seq![':'] + tag).contains('/'),
        first_index_of(name + seq![':'] + tag, ':') == name.len(),
        (name + seq![':'] + tag).skip(name.len() + 1int) == tag,
{
    let seg = name + seq![':'] + tag;
    assert(seg[name.len() as int] == ':');
    assert forall|i: int| 0 <= i < name.len() implies seg[i] != ':' by {
        assert(seg[i] == name[i]);
    }
    lemma_first_index_at(seg, ':', name.len() as int);
    assert(seg.skip(name.len() + 1int) =~= tag);
    if seg.contains('/') {
        let i = choose|i: int| 0 <= i < seg.len() && seg[i] == '/';
        if i < name.len() {
            assert(seg[i] == name[i]);
        } else if i > name.len() {
            assert(seg[i] == tag[i - name.len() - 1]);
        }
    }
}

/// An image reference `prefix + name + ":" + tag`, where `prefix` is a
/// registry and path ending in `/` (or nothing) and neither `name` nor `tag`
/// holds a `/`, is flagged exactly when its tag is `latest`, whatever `:`
/// the registry part holds (a `host:port`); a digest or `$` variable
/// anywhere keeps it unflagged.
pub proof fn lemma_tag_is_read_from_the_last_segment(
    svc: ServiceView,
    prefix: Seq<char>,
    name: Seq<char>,
    tag: Seq<char>,
)
    requires
        prefix.len() == 0 || prefix.last() == '/',
        !name.contains('/'),
        !name.contains(':'),
        !tag.contains('/'),
        svc.image == Some(prefix + name + seq![':'] + tag),
    ensures
        ({
            let image = prefix + name + seq![':'] + tag;
            unpinned_image_findings(svc) == if image.contains('$') || image.contains('@') {
                Seq::<FindingView>::empty()
            } else if tag == "latest"@ {
                seq![finding(svc, "unpinned-image"@, Severity::Warning, latest_tag_message(image))]
            } else {
                Seq::<FindingView>::empty()
            }
        }),
{
    let seg = name + seq![':'] + tag;
    let image = prefix + name + seq![':'] + tag;
    assert(image =~= prefix + seg);
    lemma_segment_tag(name, tag);
    lemma_last_segment_of(prefix, seg);
    assert(image_tag(image) == Some(tag));
}

/// An image reference `prefix + name` with no `:` after its last `/` (a
/// `host:port` registry part aside) has no tag and is flagged, unless it
/// holds a digest or a `$` variable.
pub proof fn lemma_untagged_image_is_flagged(svc: ServiceView, prefix: Seq<char>, name: Seq<char>)
    requires
        prefix.len() == 0 || prefix.last() == '/',
        !name.contains('/'),
        !name.contains(':'),
        svc.image == Some(prefix + name),
    ensures
        ({
            let image = prefix + name;
            unpinned_image_findings(svc) == if image.contains('$') || image.contains('@') {
                Seq::<FindingView>::empty()
            } else {
                seq![finding(svc, "unpinned-image"@, Severity::Warning, no_tag_message(image))]
            }
        }),
{
    let image = prefix + name;
    lemma_last_segment_of(prefix, name);
    lemma_index_of(name, ':');
    assert(image_tag(image) is None);
}

/// The port is bound to one specific host address: a host IP that is
/// neither empty nor `0.0.0.0`.
pub open spec fn binds_specific_address(p: PortEntryView) -> bool {
    p.host_ip matches Some(ip) && ip.len() > 0 && ip != "0.0.0.0"@
}

/// A port counts as published on every host interface exactly when it fixes
/// a host port and its host IP is absent, empty or `0.0.0.0`; a port bound
/// to any other address (a loopback or a LAN address) is never flagged. The
/// findings follow such ports one for one, in port order.
pub proof fn lemma_unbound_means_no_host_ip_restriction(svc: ServiceView)
    ensures
        unbound_port_findings(svc) == svc.ports.filter(
            |p: PortEntryView|
                p.has_explicit_host_port && match p.host_ip {
                    None => true,
                    Some(ip) => ip.len() == 0 || ip == "0.0.0.0"@,
                },
        ).map_values(
            |p: PortEntryView|
                finding(svc, "unbound-published-port"@, Severity::Warning, unbound_port_message(p.raw)),
        ),
        (forall|k: int|
            0 <= k < svc.ports.len() ==> !(#[trigger] svc.ports[k]).has_explicit_host_port
                || binds_specific_address(svc.ports[k]))
            ==> unbound_port_findings(svc).len() == 0,
{
    lemma_unbound_findings_follow_ports(svc);
    let p1 = |p: PortEntryView| is_unbound(p);
    let p2 = |p: PortEntryView|
        p.has_explicit_host_port && match p.host_ip {
            None => true,
            Some(ip) => ip.len() == 0 || ip == "0.0.0.0"@,
        };
    assert(p1 =~= p2);
    let f1 = |p: PortEntryView| unbound_port_finding(svc, p);
    let f2 = |p: PortEntryView|
        finding(svc, "unbound-published-port"@, Severity::Warning, unbound_port_message(p.raw));
    assert(f1 =~= f2);
    if forall|k: int|
        0 <= k < svc.ports.len() ==> !(#[trigger] svc.ports[k]).has_explicit_host_port
            || binds_specific_address(svc.ports[k]) {
        lemma_count_unbound(svc, svc.ports.len() as int);
        assert(svc.ports.take(svc.ports.len() as int) =~= svc.ports);
    }
}

proof fn lemma_count_unbound(svc: ServiceView, n: int)
    requires
        0 <= n <= svc.ports.len(),
        forall|k: int|
            0 <= k < svc.ports.len() ==> !(#[trigger] svc.ports[k]).has_explicit_host_port
                || binds_specific_address(svc.ports[k]),
    ensures
        svc.ports.take(n).filter(|p: PortEntryView| is_unbound(p)).len() == 0,
    decreases n,
{
    reveal(Seq::filter);
    if n > 0 {
        lemma_count_unbound(svc, n - 1);
        assert(svc.ports.take(n).drop_last() =~= svc.ports.take(n - 1));
        assert(svc.ports.take(n).last() == svc.ports[n - 1]);
    }
}

proof fn lemma_host_rule_name_differs()
    ensures
        "host-network-mode"@ != "unpinned-image"@,
        "host-network-mode"@ != "no-restart-policy"@,
        "host-network-mode"@ != "privileged-container"@,
        "host-network-mode"@ != "unbound-published-port"@,
{
    reveal_strlit("privileged-container");
    reveal_strlit("unpinned-image");
    reveal_strlit("no-restart-policy");
    reveal_strlit("host-network-mode");
    reveal_strlit("unbound-published-port");
    assert("host-network-mode"@.len() != "unpinned-image"@.len());
    assert("host-network-mode"@[0] != "no-restart-policy"@[0]);
    assert("host-network-mode"@.len() != "privileged-container"@.len());
    assert("host-network-mode"@.len() != "unbound-published-port"@.len());
}

/// Of all the findings against a service, one is a host-network-mode
/// finding exactly when its `network_mode` is the string `host`; any other
/// mode (`bridge`, `none`, `service:x`, `container:x`) gives none.
pub proof fn lemma_host_network_only_for_host(svc: ServiceView)
    ensures
        (exists|i: int|
            0 <= i < service_findings(svc).len() && #[trigger] service_findings(svc)[i].rule
                == "host-network-mode"@) == (svc.network_mode == Some("host"@)),
{
    lemma_host_rule_name_differs();
    lemma_unbound_findings_follow_ports(svc);
    let a = unpinned_image_findings(svc);
    let b = no_restart_policy_findings(svc);
    let c = host_network_mode_findings(svc);
    let d = privileged_findings(svc);
    let e = unbound_port_findings(svc);
    let all = service_findings(svc);
    if svc.network_mode == Some("host"@) {
        assert(all[a.len() + b.len() as int] == c[0]);
        assert(all[a.len() + b.len() as int].rule == "host-network-mode"@);
    }
    if exists|i: int| 0 <= i < all.len() && #[trigger] all[i].rule == "host-network-mode"@ {
        let i = choose|i: int| 0 <= i < all.len() && #[trigger] all[i].rule == "host-network-mode"@;
        if i < a.len() {
            assert(all[i] == a[i]);
        } else if i < a.len() + b.len() {
            assert(all[i] == b[i - a.len()]);
        } else if i < a.len() + b.len() + c.len() {
            assert(all[i] == c[i - a.len() - b.len()]);
        } else if i < a.len() + b.len() + c.len() + d.len() {
            assert(all[i] == d[i - a.len() - b.len() - c.len()]);
        } else {
            let k = i - a.len() - b.len() - c.len() - d.len();
            let ports = svc.ports.filter(|p: PortEntryView| is_unbound(p));
            assert(all[i] == e[k]);
            assert(e[k] == unbound_port_finding(svc, ports[k]));
        }
    }
}

/// A service read from YAML is privileged exactly when its `privileged`
/// key holds the boolean `true`: `privileged: false`, a non-boolean value
/// or no key at all reads as not privileged. The privileged-container rule
/// then reports one error against it exactly in that case.
pub proof fn lemma_privileged_reads_the_boolean(name: Seq<char>, svc: YamlNode)
    ensures
        service_of(name, svc).privileged == (svc.get_spec("privileged"@) matches Some(v)
            && v.bool_of() == Some(true)),
        privileged_findings(service_of(name, svc)).len() == if svc.get_spec("privileged"@) matches Some(
            v,
        ) && v.bool_of() == Some(true) {
            1int
        } else {
            0int
        },
{
}

} // verus!
