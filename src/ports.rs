//! Translation of a game mode's declared ports, against the endpoints that a
//! compute run exposes, into the endpoints a client joins.

use vstd::prelude::*;
use crate::error::{InternalError, MmError};
use crate::protocol::{
    is_tls_protocol, protocols_equivalent, test_mm_and_job_proxy_protocol_eq, JobProxyProtocol,
    ProxyKind, ProxyProtocol,
};
use crate::text::{decimal, push_decimal, str_eq};

verus! {

/// A port range as a game mode declares it.
#[derive(Clone, Copy, Debug, PartialEq, Eq, Structural)]
pub struct PortRange {
    pub min: u32,
    pub max: u32,
}

/// One port of a game mode's runtime.
#[derive(Clone, Debug, PartialEq, Eq)]
pub struct PortDecl {
    pub label: String,
    pub proxy_kind: ProxyKind,
    pub proxy_protocol: ProxyProtocol,
    pub port_range: Option<PortRange>,
}

/// An endpoint that the ingress exposes for a compute run.
#[derive(Clone, Debug, PartialEq, Eq)]
pub struct ProxiedPort {
    /// The label of the declared port it serves, as the game mode declares
    /// it. The scheduler knows the port under a formatted label; the caller
    /// that reads the compute run removes that formatting before handing the
    /// run in, and the match here is on the declared label as it is.
    pub target_label: Option<String>,
    pub ingress_hostnames: Vec<String>,
    pub ingress_port: u32,
    pub proxy_protocol: JobProxyProtocol,
}

/// A network of a compute run.
#[derive(Clone, Debug, PartialEq, Eq)]
pub struct Network {
    pub mode: String,
    pub ip: String,
}

/// What the translation reads of a compute run.
#[derive(Clone, Debug, PartialEq, Eq)]
pub struct RunInfo {
    pub proxied_ports: Vec<ProxiedPort>,
    pub networks: Vec<Network>,
}

/// A port range as a client sees it.
#[derive(Clone, Copy, Debug, PartialEq, Eq, Structural)]
pub struct JoinPortRange {
    pub min: u16,
    pub max: u16,
}

/// An endpoint a client connects to.
#[derive(Clone, Debug, PartialEq, Eq)]
pub struct JoinPort {
    /// `hostname:port`, for a single port.
    pub host: Option<String>,
    pub hostname: String,
    pub port: Option<u16>,
    pub port_range: Option<JoinPortRange>,
    pub is_tls: bool,
}

pub struct JoinPortView {
    pub host: Option<Seq<char>>,
    pub hostname: Seq<char>,
    pub port: Option<u16>,
    pub port_range: Option<JoinPortRange>,
    pub is_tls: bool,
}

impl View for JoinPort {
    type V = JoinPortView;

    open spec fn view(&self) -> JoinPortView {
        JoinPortView {
            host: match self.host {
                Some(h) => Some(h@),
                None => None,
            },
            hostname: self.hostname@,
            port: self.port,
            port_range: self.port_range,
            is_tls: self.is_tls,
        }
    }
}

/// A labelled join port, as the response holds it.
pub open spec fn labelled_view(p: (String, JoinPort)) -> (Seq<char>, JoinPortView) {
    (p.0@, p.1@)
}

pub open spec fn ports_view(v: Seq<(String, JoinPort)>) -> Seq<(Seq<char>, JoinPortView)> {
    v.map_values(|p: (String, JoinPort)| labelled_view(p))
}

/// The mode name of a host network.
pub open spec fn host_mode() -> Seq<char> {
    seq!['h', 'o', 's', 't']
}

/// An exposed endpoint can serve a declared port: same protocol under the
/// correspondence, same label, and a hostname to reach it by.
pub open spec fn is_candidate(p: ProxiedPort, decl: PortDecl) -> bool {
    &&& protocols_equivalent(decl.proxy_protocol, p.proxy_protocol)
    &&& match p.target_label {
        Some(l) => l@ == decl.label@,
        None => false,
    }
    &&& p.ingress_hostnames@.len() > 0
}

pub open spec fn is_first_candidate(ports: Seq<ProxiedPort>, decl: PortDecl, i: int) -> bool {
    &&& 0 <= i < ports.len()
    &&& is_candidate(ports[i], decl)
    &&& forall|j: int| 0 <= j < i ==> !is_candidate(#[trigger] ports[j], decl)
}

pub open spec fn is_first_host_network(nets: Seq<Network>, i: int) -> bool {
    &&& 0 <= i < nets.len()
    &&& nets[i].mode@ == host_mode()
    &&& forall|j: int| 0 <= j < i ==> (#[trigger] nets[j]).mode@ != host_mode()
}

/// The join port for an exposed endpoint chosen for a declared port.
pub open spec fn proxied_join_port(p: ProxiedPort, decl: PortDecl) -> Result<JoinPortView, MmError> {
    if p.ingress_port > u16::MAX {
        Err(MmError::Internal(InternalError::PortOutOfRange))
    } else {
        let hostname = p.ingress_hostnames@[0]@;
        Ok(
            JoinPortView {
                host: Some(hostname + seq![':'] + decimal(p.ingress_port as nat)),
                hostname: hostname,
                port: Some(p.ingress_port as u16),
                port_range: None,
                is_tls: is_tls_protocol(decl.proxy_protocol),
            },
        )
    }
}

/// The join port for a direct port, bound to the compute run's host network.
pub open spec fn direct_join_port(run: RunInfo, decl: PortDecl) -> Result<JoinPortView, MmError> {
    match decl.port_range {
        None => Err(MmError::Internal(InternalError::MissingPortRange)),
        Some(r) => if !(exists|i: int| is_first_host_network(run.networks@, i)) {
            Err(MmError::Internal(InternalError::MissingHostNetwork))
        } else if r.min > u16::MAX || r.max > u16::MAX {
            Err(MmError::Internal(InternalError::PortOutOfRange))
        } else {
            let i = choose|i: int| is_first_host_network(run.networks@, i);
            Ok(
                JoinPortView {
                    host: None,
                    hostname: run.networks@[i].ip@,
                    port: None,
                    port_range: Some(JoinPortRange { min: r.min as u16, max: r.max as u16 }),
                    is_tls: false,
                },
            )
        },
    }
}

/// What a declared port translates to: a labelled join port, nothing where a
/// proxied port has no exposed endpoint, or a configuration failure.
pub open spec fn translate_port(run: RunInfo, decl: PortDecl) -> Result<
    Option<(Seq<char>, JoinPortView)>,
    MmError,
> {
    match decl.proxy_kind {
        ProxyKind::Proxied => if exists|i: int| is_first_candidate(run.proxied_ports@, decl, i) {
            let i = choose|i: int| is_first_candidate(run.proxied_ports@, decl, i);
            match proxied_join_port(run.proxied_ports@[i], decl) {
                Ok(v) => Ok(Some((decl.label@, v))),
                Err(e) => Err(e),
            }
        } else {
            Ok(None)
        },
        ProxyKind::Direct => match decl.proxy_protocol {
            ProxyProtocol::Tcp | ProxyProtocol::Udp => match direct_join_port(run, decl) {
                Ok(v) => Ok(Some((decl.label@, v))),
                Err(e) => Err(e),
            },
            _ => Err(MmError::Internal(InternalError::InvalidHostProtocol)),
        },
    }
}

pub open spec fn translate_result_view(r: Result<Option<(String, JoinPort)>, MmError>) -> Result<
    Option<(Seq<char>, JoinPortView)>,
    MmError,
> {
    match r {
        Ok(Some(p)) => Ok(Some(labelled_view(p))),
        Ok(None) => Ok(None),
        Err(e) => Err(e),
    }
}

proof fn lemma_first_candidate_unique(ports: Seq<ProxiedPort>, decl: PortDecl, i: int, k: int)
    requires
        is_first_candidate(ports, decl, i),
        is_first_candidate(ports, decl, k),
    ensures
        i == k,
{
    if i < k {
        assert(!is_candidate(ports[i], decl));
    } else if k < i {
        assert(!is_candidate(ports[k], decl));
    }
}

proof fn lemma_first_host_network_unique(nets: Seq<Network>, i: int, k: int)
    requires
        is_first_host_network(nets, i),
        is_first_host_network(nets, k),
    ensures
        i == k,
{
    if i < k {
        assert(nets[i].mode@ != host_mode());
    } else if k < i {
        assert(nets[k].mode@ != host_mode());
    }
}

fn find_host_network(run: &RunInfo) -> (r: Option<usize>)
    ensures
        match r {
            Some(i) => is_first_host_network(run.networks@, i as int),
            None => !(exists|i: int| is_first_host_network(run.networks@, i)),
        },
{
    proof {
        reveal_strlit("host");
        assert("host"@ =~= host_mode());
    }
    let mut i: usize = 0;
    while i < run.networks.len()
        invariant
            i <= run.networks@.len(),
            "host"@ == host_mode(),
            forall|j: int| 0 <= j < i ==> (#[trigger] run.networks@[j]).mode@ != host_mode(),
        decreases run.networks@.len() - i,
    {
        if str_eq(run.networks[i].mode.as_str(), "host") {
            return Some(i);
        }
        i += 1;
    }
    assert forall|k: int| !is_first_host_network(run.networks@, k) by {
        if 0 <= k < run.networks@.len() {
            assert(run.networks@[k].mode@ != host_mode());
        }
    }
    None
}

fn label_matches(target: &Option<String>, label: &String) -> (r: bool)
    ensures
        r == match target {
            Some(l) => l@ == label@,
            None => false,
        },
{
    match target {
        Some(l) => *l == *label,
        None => false,
    }
}

fn find_proxied_port(run: &RunInfo, port: &PortDecl) -> (r: Option<usize>)
    ensures
        match r {
            Some(i) => is_first_candidate(run.proxied_ports@, *port, i as int),
            None => !(exists|i: int| is_first_candidate(run.proxied_ports@, *port, i)),
        },
{
    let mut i: usize = 0;
    while i < run.proxied_ports.len()
        invariant
            i <= run.proxied_ports@.len(),
            forall|j: int| 0 <= j < i ==> !is_candidate(#[trigger] run.proxied_ports@[j], *port),
        decreases run.proxied_ports@.len() - i,
    {
        let p = &run.proxied_ports[i];
        if test_mm_and_job_proxy_protocol_eq(port.proxy_protocol, p.proxy_protocol)
            && label_matches(&p.target_label, &port.label) && p.ingress_hostnames.len() > 0 {
            return Some(i);
        }
        i += 1;
    }
    assert forall|k: int| !is_first_candidate(run.proxied_ports@, *port, k) by {
        if 0 <= k < run.proxied_ports@.len() {
            assert(!is_candidate(run.proxied_ports@[k], *port));
        }
    }
    None
}

/// Translates one declared port against a compute run.
pub fn build_port(run: &RunInfo, port: &PortDecl) -> (r: Result<Option<(String, JoinPort)>, MmError>)
    ensures
        translate_result_view(r) == translate_port(*run, *port),
{
    match port.proxy_kind {
        ProxyKind::Proxied => {
            match find_proxied_port(run, port) {
                None => Ok(None),
                Some(i) => {
                    proof {
                        let k = choose|k: int| is_first_candidate(run.proxied_ports@, *port, k);
                        lemma_first_candidate_unique(run.proxied_ports@, *port, i as int, k);
                    }
                    let p = &run.proxied_ports[i];
                    if p.ingress_port > 65535 {
                        return Err(MmError::Internal(InternalError::PortOutOfRange));
                    }
                    proof {
                        reveal_strlit(":");
                    }
                    let hostname = p.ingress_hostnames[0].clone();
                    let mut host = hostname.clone();
                    host.append(":");
                    push_decimal(&mut host, p.ingress_port);
                    assert(host@ =~= hostname@ + seq![':'] + decimal(p.ingress_port as nat));
                    let is_tls = match port.proxy_protocol {
                        ProxyProtocol::Https | ProxyProtocol::TcpTls => true,
                        _ => false,
                    };
                    let jp = JoinPort {
                        host: Some(host),
                        hostname,
                        port: Some(p.ingress_port as u16),
                        port_range: None,
                        is_tls,
                    };
                    Ok(Some((port.label.clone(), jp)))
                },
            }
        },
        ProxyKind::Direct => {
            match port.proxy_protocol {
                ProxyProtocol::Tcp | ProxyProtocol::Udp => {
                    let range = match port.port_range {
                        Some(r) => r,
                        None => {
                            return Err(MmError::Internal(InternalError::MissingPortRange));
                        },
                    };
                    let i = match find_host_network(run) {
                        Some(i) => i,
                        None => {
                            return Err(MmError::Internal(InternalError::MissingHostNetwork));
                        },
                    };
                    proof {
                        let k = choose|k: int| is_first_host_network(run.networks@, k);
                        lemma_first_host_network_unique(run.networks@, i as int, k);
                    }
                    if range.min > 65535 || range.max > 65535 {
                        return Err(MmError::Internal(InternalError::PortOutOfRange));
                    }
                    let jp = JoinPort {
                        host: None,
                        hostname: run.networks[i].ip.clone(),
                        port: None,
                        port_range: Some(JoinPortRange { min: range.min as u16, max: range.max as u16 }),
                        is_tls: false,
                    };
                    Ok(Some((port.label.clone(), jp)))
                },
                _ => Err(MmError::Internal(InternalError::InvalidHostProtocol)),
            }
        },
    }
}

/// The join ports of all declared ports, in declaration order: ports without
/// an exposed endpoint are left out, and the first failure ends the
/// translation.
pub open spec fn translate_ports(run: RunInfo, decls: Seq<PortDecl>) -> Result<
    Seq<(Seq<char>, JoinPortView)>,
    MmError,
>
    decreases decls.len(),
{
    if decls.len() == 0 {
        Ok(Seq::empty())
    } else {
        match translate_ports(run, decls.drop_last()) {
            Err(e) => Err(e),
            Ok(acc) => match translate_port(run, decls.last()) {
                Err(e) => Err(e),
                Ok(None) => Ok(acc),
                Ok(Some(p)) => Ok(acc.push(p)),
            },
        }
    }
}

pub open spec fn ports_result_view(r: Result<Vec<(String, JoinPort)>, MmError>) -> Result<
    Seq<(Seq<char>, JoinPortView)>,
    MmError,
> {
    match r {
        Ok(v) => Ok(ports_view(v@)),
        Err(e) => Err(e),
    }
}

proof fn lemma_translate_ports_error_persists(run: RunInfo, decls: Seq<PortDecl>, j: int, k: int)
    requires
        0 <= j <= k <= decls.len(),
        translate_ports(run, decls.subrange(0, j)) is Err,
    ensures
        translate_ports(run, decls.subrange(0, k)) == translate_ports(run, decls.subrange(0, j)),
    decreases k - j,
{
    if j < k {
        lemma_translate_ports_error_persists(run, decls, j, k - 1);
        assert(decls.subrange(0, k).drop_last() =~= decls.subrange(0, k - 1));
    }
}

/// Translates every declared port of a game mode against a compute run.
///
/// The result keeps declaration order. A label that is declared twice gives
/// two entries, in that order; collected into a map keyed by label, the
/// later entry wins.
pub fn build_ports(run: &RunInfo, decls: &Vec<PortDecl>) -> (r: Result<Vec<(String, JoinPort)>, MmError>)
    ensures
        ports_result_view(r) == translate_ports(*run, decls@),
{
    let mut out: Vec<(String, JoinPort)> = Vec::new();
    let mut i: usize = 0;
    assert(ports_view(out@) =~= Seq::empty());
    while i < decls.len()
        invariant
            i <= decls@.len(),
            translate_ports(*run, decls@.subrange(0, i as int)) == Ok::<
                Seq<(Seq<char>, JoinPortView)>,
                MmError,
            >(ports_view(out@)),
        decreases decls@.len() - i,
    {
        let ghost prefix = decls@.subrange(0, i as int + 1);
        assert(prefix.drop_last() =~= decls@.subrange(0, i as int));
        assert(prefix.last() == decls@[i as int]);
        match build_port(run, &decls[i]) {
            Err(e) => {
                proof {
                    lemma_translate_ports_error_persists(*run, decls@, i + 1, decls@.len() as int);
                    assert(decls@.subrange(0, decls@.len() as int) =~= decls@);
                }
                return Err(e);
            },
            Ok(None) => {},
            Ok(Some(p)) => {
                let ghost before = out@;
                let ghost pv = labelled_view(p);
                out.push(p);
                assert(ports_view(out@) =~= ports_view(before).push(pv));
            },
        }
        i += 1;
    }
    assert(decls@.subrange(0, i as int) =~= decls@);
    Ok(out)
}

/// Translation depends on the compute run and the declaration alone: equal
/// inputs give equal outputs.
pub proof fn lemma_translation_is_pure(run1: RunInfo, run2: RunInfo, decl1: PortDecl, decl2: PortDecl)
    requires
        run1 == run2,
        decl1 == decl2,
    ensures
        translate_port(run1, decl1) == translate_port(run2, decl2),
{
}

/// A proxied port that no exposed endpoint of the compute run serves is left
/// out of the response; it is no failure.
pub proof fn lemma_unmatched_proxied_port_is_none(run: RunInfo, decl: PortDecl)
    requires
        decl.proxy_kind == ProxyKind::Proxied,
        forall|i: int| 0 <= i < run.proxied_ports@.len() ==> !is_candidate(#[trigger] run.proxied_ports@[i], decl),
    ensures
        translate_port(run, decl) == Ok::<Option<(Seq<char>, JoinPortView)>, MmError>(None),
{
}

} // verus!
