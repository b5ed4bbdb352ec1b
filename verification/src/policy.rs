//! The connection policy: classify a CONNECT request by stream kind, port,
//! and address category, and pick the concrete target address.
//!
//! Hostname lookups happen outside this crate; the caller first asks
//! [`resolve_packet`], and when that answers [`PolicyStep::NeedsResolve`] it
//! performs the lookup and hands the addresses to [`select_resolved`].
//!
//! A host counts as an IP literal exactly when [`spec_parse_ip`] accepts
//! it: dotted-quad IPv4, or colon-separated IPv6 with at most one `::`. An
//! IPv6 literal with a dotted-quad tail is not in that grammar; such a
//! host goes to resolution like any other name.

use vstd::prelude::*;

use crate::config::WispConfig;
use crate::ip::IpAddress;
use crate::ip::parse_ip;
use crate::ip::spec_parse_ip;
use crate::packet::ConnectPayload;
use crate::packet::ConnectPayloadView;
use crate::packet::StreamType;

verus! {

/// A connect request whose host has been fixed to a concrete address.
#[derive(Clone, Copy, Debug, PartialEq, Eq, Structural)]
pub struct ConnectTarget {
    pub stream_type: StreamType,
    pub ip: IpAddress,
    pub port: u16,
}

/// Result of resolving a connection request.
#[derive(Clone, Copy, Debug, PartialEq, Eq, Structural)]
pub enum ResolvedStream {
    /// Valid TCP/UDP connection, with the address to dial.
    Valid(ConnectTarget),
    /// No resolved address passed the filters.
    NoResolvedAddrs,
    /// Connection blocked by policy.
    Blocked,
    /// Invalid request.
    Invalid,
}

/// What the policy can say before any DNS lookup.
#[derive(Clone, Copy, Debug, PartialEq, Eq, Structural)]
pub enum PolicyStep {
    /// Decided without resolution.
    Done(ResolvedStream),
    /// The host is a hostname that passed the early checks: resolve it and
    /// continue with [`select_resolved`].
    NeedsResolve,
}

/// True when the address passes the loopback and private filters.
pub open spec fn spec_ip_passes(ip: IpAddress, cfg: WispConfig) -> bool {
    (cfg.allow_loopback || !ip.spec_loopback()) && (cfg.allow_private || !ip.spec_private())
}

/// Executable address filter, proved equal to [`spec_ip_passes`].
pub fn ip_passes(ip: &IpAddress, cfg: &WispConfig) -> (r: bool)
    ensures
        r == spec_ip_passes(*ip, *cfg),
{
    if ip.is_loopback() && !cfg.allow_loopback {
        return false;
    }
    if ip.is_private() && !cfg.allow_private {
        return false;
    }
    true
}

/// The policy's pre-resolution answer: stream kind against the allow flags,
/// `OTHER` and an empty host invalid, blocked ports, and an IP-literal host
/// checked against the address filters.
pub open spec fn spec_resolve_packet(p: ConnectPayloadView, cfg: WispConfig) -> PolicyStep {
    if p.stream_type == StreamType::Tcp && !cfg.allow_tcp {
        PolicyStep::Done(ResolvedStream::Blocked)
    } else if p.stream_type == StreamType::Udp && !cfg.allow_udp {
        PolicyStep::Done(ResolvedStream::Blocked)
    } else if p.stream_type is Other {
        PolicyStep::Done(ResolvedStream::Invalid)
    } else if p.host.len() == 0 {
        PolicyStep::Done(ResolvedStream::Invalid)
    } else if cfg.spec_port_blocked(p.port) {
        PolicyStep::Done(ResolvedStream::Blocked)
    } else if spec_parse_ip(p.host) is Some {
        let ip = spec_parse_ip(p.host).unwrap();
        if spec_ip_passes(ip, cfg) {
            PolicyStep::Done(
                ResolvedStream::Valid(
                    ConnectTarget { stream_type: p.stream_type, ip, port: p.port },
                ),
            )
        } else {
            PolicyStep::Done(ResolvedStream::Blocked)
        }
    } else {
        PolicyStep::NeedsResolve
    }
}

/// Classify a connection request before any DNS lookup, exactly
/// [`spec_resolve_packet`].
pub fn resolve_packet(packet: &ConnectPayload, cfg: &WispConfig) -> (r: PolicyStep)
    ensures
        r == spec_resolve_packet(packet@, *cfg),
{
    match packet.stream_type {
        StreamType::Tcp => {
            if !cfg.allow_tcp {
                return PolicyStep::Done(ResolvedStream::Blocked);
            }
        },
        StreamType::Udp => {
            if !cfg.allow_udp {
                return PolicyStep::Done(ResolvedStream::Blocked);
            }
        },
        StreamType::Other(_) => {
            return PolicyStep::Done(ResolvedStream::Invalid);
        },
    }
    if packet.host.len() == 0 {
        return PolicyStep::Done(ResolvedStream::Invalid);
    }
    if cfg.is_port_blocked(packet.port) {
        return PolicyStep::Done(ResolvedStream::Blocked);
    }
    match parse_ip(packet.host.as_slice()) {
        Some(ip) => {
            if ip_passes(&ip, cfg) {
                PolicyStep::Done(
                    ResolvedStream::Valid(
                        ConnectTarget { stream_type: packet.stream_type, ip, port: packet.port },
                    ),
                )
            } else {
                PolicyStep::Done(ResolvedStream::Blocked)
            }
        },
        None => PolicyStep::NeedsResolve,
    }
}

/// The first resolved address that passes the filters.
pub open spec fn spec_first_passing(addrs: Seq<IpAddress>, cfg: WispConfig) -> Option<IpAddress>
    decreases addrs.len(),
{
    if addrs.len() == 0 {
        None
    } else if spec_ip_passes(addrs[0], cfg) {
        Some(addrs[0])
    } else {
        spec_first_passing(addrs.skip(1), cfg)
    }
}

proof fn lemma_first_passing_at(addrs: Seq<IpAddress>, cfg: WispConfig, i: int)
    requires
        0 <= i <= addrs.len(),
        forall|j: int| 0 <= j < i ==> !spec_ip_passes(addrs[j], cfg),
        i < addrs.len() ==> spec_ip_passes(addrs[i], cfg),
    ensures
        spec_first_passing(addrs, cfg) == if i < addrs.len() {
            Some(addrs[i])
        } else {
            None::<IpAddress>
        },
    decreases addrs.len(),
{
    if i == 0 {
    } else {
        assert forall|j: int| 0 <= j < i - 1 implies !spec_ip_passes(addrs.skip(1)[j], cfg) by {
            assert(addrs.skip(1)[j] == addrs[j + 1]);
        }
        if i - 1 < addrs.skip(1).len() {
            assert(addrs.skip(1)[i - 1] == addrs[i]);
        }
        lemma_first_passing_at(addrs.skip(1), cfg, i - 1);
    }
}

/// The answer after resolution: the first address in preference order that
/// passes the filters becomes the target; none qualifying means
/// `NoResolvedAddrs`.
pub open spec fn spec_select_resolved(
    p: ConnectPayloadView,
    cfg: WispConfig,
    addrs: Seq<IpAddress>,
) -> ResolvedStream {
    match spec_first_passing(addrs, cfg) {
        Some(ip) => ResolvedStream::Valid(
            ConnectTarget { stream_type: p.stream_type, ip, port: p.port },
        ),
        None => ResolvedStream::NoResolvedAddrs,
    }
}

/// Pick the target among the resolved addresses, exactly
/// [`spec_select_resolved`].
pub fn select_resolved(
    packet: &ConnectPayload,
    cfg: &WispConfig,
    addrs: &Vec<IpAddress>,
) -> (r: ResolvedStream)
    ensures
        r == spec_select_resolved(packet@, *cfg, addrs@),
{
    let mut i: usize = 0;
    while i < addrs.len()
        invariant
            0 <= i <= addrs@.len(),
            forall|j: int| 0 <= j < i ==> !spec_ip_passes(addrs@[j], *cfg),
        decreases addrs@.len() - i,
    {
        if ip_passes(&addrs[i], cfg) {
            proof {
                lemma_first_passing_at(addrs@, *cfg, i as int);
            }
            return ResolvedStream::Valid(
                ConnectTarget {
                    stream_type: packet.stream_type,
                    ip: addrs[i],
                    port: packet.port,
                },
            );
        }
        i = i + 1;
    }
    proof {
        lemma_first_passing_at(addrs@, *cfg, addrs@.len() as int);
    }
    ResolvedStream::NoResolvedAddrs
}

/// The whole classification: the pre-resolution answer where it decides,
/// else the answer over the resolved addresses.
pub open spec fn spec_classify(
    p: ConnectPayloadView,
    cfg: WispConfig,
    addrs: Seq<IpAddress>,
) -> ResolvedStream {
    match spec_resolve_packet(p, cfg) {
        PolicyStep::Done(r) => r,
        PolicyStep::NeedsResolve => spec_select_resolved(p, cfg, addrs),
    }
}

/// A valid classification always carries an address that passed the filters, and a
/// blocked stream kind or blocked port is never `Valid`, whatever the
/// resolver answered.
pub proof fn lemma_classify_valid_passes(
    p: ConnectPayloadView,
    cfg: WispConfig,
    addrs: Seq<IpAddress>,
)
    ensures
        spec_classify(p, cfg, addrs) is Valid ==> spec_ip_passes(
            spec_classify(p, cfg, addrs)->Valid_0.ip,
            cfg,
        ),
        p.stream_type == StreamType::Tcp && !cfg.allow_tcp ==> spec_classify(p, cfg, addrs)
            == ResolvedStream::Blocked,
        p.stream_type == StreamType::Udp && !cfg.allow_udp ==> spec_classify(p, cfg, addrs)
            == ResolvedStream::Blocked,
        p.stream_type is Other ==> spec_classify(p, cfg, addrs) == ResolvedStream::Invalid,
        cfg.spec_port_blocked(p.port) && spec_classify(p, cfg, addrs) is Valid ==> false,
{
    lemma_first_passing_passes(addrs, cfg);
}

proof fn lemma_first_passing_passes(addrs: Seq<IpAddress>, cfg: WispConfig)
    ensures
        spec_first_passing(addrs, cfg) is Some ==> spec_ip_passes(
            spec_first_passing(addrs, cfg).unwrap(),
            cfg,
        ),
    decreases addrs.len(),
{
    if addrs.len() == 0 {
    } else if spec_ip_passes(addrs[0], cfg) {
    } else {
        lemma_first_passing_passes(addrs.skip(1), cfg);
    }
}

} // verus!
