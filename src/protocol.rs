//! The two proxy protocol vocabularies and how they correspond.

use vstd::prelude::*;

verus! {

/// How a game mode exposes one of its ports.
#[derive(Clone, Copy, Debug, PartialEq, Eq, Structural)]
pub enum ProxyKind {
    /// Traffic passes through the shared ingress.
    Proxied,
    /// The compute run's host network is exposed as it is.
    Direct,
}

/// Proxy protocol as a game mode declares it.
#[derive(Clone, Copy, Debug, PartialEq, Eq, Structural)]
pub enum ProxyProtocol {
    Http,
    Https,
    Tcp,
    TcpTls,
    Udp,
}

/// Proxy protocol as a compute run reports it for an exposed endpoint.
#[derive(Clone, Copy, Debug, PartialEq, Eq, Structural)]
pub enum JobProxyProtocol {
    Http,
    Https,
    Tcp,
    TcpTls,
    Udp,
}

/// The correspondence between the two vocabularies: each protocol matches
/// the one of the same name and no other.
pub open spec fn protocols_equivalent(mm: ProxyProtocol, job: JobProxyProtocol) -> bool {
    match (mm, job) {
        (ProxyProtocol::Http, JobProxyProtocol::Http) => true,
        (ProxyProtocol::Https, JobProxyProtocol::Https) => true,
        (ProxyProtocol::Tcp, JobProxyProtocol::Tcp) => true,
        (ProxyProtocol::TcpTls, JobProxyProtocol::TcpTls) => true,
        (ProxyProtocol::Udp, JobProxyProtocol::Udp) => true,
        _ => false,
    }
}

/// Whether a protocol is served over TLS to the client.
pub open spec fn is_tls_protocol(p: ProxyProtocol) -> bool {
    p == ProxyProtocol::Https || p == ProxyProtocol::TcpTls
}

/// Tests whether a declared protocol and a compute run protocol correspond.
pub fn test_mm_and_job_proxy_protocol_eq(
    mm_proxy_protocol: ProxyProtocol,
    job_proxy_protocol: JobProxyProtocol,
) -> (r: bool)
    ensures
        r == protocols_equivalent(mm_proxy_protocol, job_proxy_protocol),
{
    match (mm_proxy_protocol, job_proxy_protocol) {
        (ProxyProtocol::Http, JobProxyProtocol::Http) => true,
        (ProxyProtocol::Https, JobProxyProtocol::Https) => true,
        (ProxyProtocol::Tcp, JobProxyProtocol::Tcp) => true,
        (ProxyProtocol::TcpTls, JobProxyProtocol::TcpTls) => true,
        (ProxyProtocol::Udp, JobProxyProtocol::Udp) => true,
        _ => false,
    }
}

/// The correspondence is one to one: a compute run protocol matches exactly
/// one declared protocol, and a declared protocol exactly one compute run
/// protocol.
pub proof fn lemma_protocol_equivalence_bijective(
    a: ProxyProtocol,
    b: ProxyProtocol,
    x: JobProxyProtocol,
    y: JobProxyProtocol,
)
    ensures
        protocols_equivalent(a, x) && protocols_equivalent(b, x) ==> a == b,
        protocols_equivalent(a, x) && protocols_equivalent(a, y) ==> x == y,
        exists|j: JobProxyProtocol| protocols_equivalent(a, j),
        exists|m: ProxyProtocol| protocols_equivalent(m, x),
{
    let j = match a {
        ProxyProtocol::Http => JobProxyProtocol::Http,
        ProxyProtocol::Https => JobProxyProtocol::Https,
        ProxyProtocol::Tcp => JobProxyProtocol::Tcp,
        ProxyProtocol::TcpTls => JobProxyProtocol::TcpTls,
        ProxyProtocol::Udp => JobProxyProtocol::Udp,
    };
    let m = match x {
        JobProxyProtocol::Http => ProxyProtocol::Http,
        JobProxyProtocol::Https => ProxyProtocol::Https,
        JobProxyProtocol::Tcp => ProxyProtocol::Tcp,
        JobProxyProtocol::TcpTls => ProxyProtocol::TcpTls,
        JobProxyProtocol::Udp => ProxyProtocol::Udp,
    };
    assert(protocols_equivalent(a, j));
    assert(protocols_equivalent(m, x));
}

} // verus!
