use wisp_core::PortRange;
use wisp_core::WispConfig;
use wisp_core::WispState;
use wisp_core::config::DEFAULT_BUFFER_SIZE;
use wisp_core::ip::IpAddress;
use wisp_core::ip::Ipv4Address;
use wisp_core::packet::CloseReason;
use wisp_core::packet::ConnectPayload;
use wisp_core::packet::StreamType;
use wisp_core::policy::ConnectTarget;
use wisp_core::policy::PolicyStep;
use wisp_core::policy::ResolvedStream;
use wisp_core::policy::resolve_packet;
use wisp_core::policy::select_resolved;
use wisp_core::resolver::ResolverPlan;
use wisp_core::resolver::plan_resolver;
use wisp_core::session::StreamDispatch;
use wisp_core::session::dispatch_connect;

fn connect(t: StreamType, host: &[u8], port: u16) -> ConnectPayload {
    ConnectPayload { stream_type: t, port, host: host.to_vec() }
}

fn v4(o0: u8, o1: u8, o2: u8, o3: u8) -> IpAddress {
    IpAddress::V4(Ipv4Address { o0, o1, o2, o3 })
}

#[test]
fn default_config() {
    let cfg = WispConfig::default();
    assert!(cfg.allow_tcp && cfg.allow_udp);
    assert!(!cfg.allow_loopback);
    assert!(cfg.allow_private);
    assert_eq!(cfg.buffer_size, 16384);
    assert!(cfg.is_port_blocked(22));
    assert!(cfg.is_port_blocked(25));
    assert!(cfg.is_port_blocked(587));
    assert!(!cfg.is_port_blocked(80));
    assert!(!cfg.is_port_blocked(443));
    assert_eq!(cfg.dns_servers, vec![b"1.1.1.1".to_vec(), b"8.8.8.8".to_vec()]);
    let state = WispState::default();
    assert!(!state.config.allow_loopback);
    assert_eq!(state.config.buffer_size, 16384);
    assert_eq!(state.config.dns_servers, vec![b"1.1.1.1".to_vec(), b"8.8.8.8".to_vec()]);
}

#[test]
fn port_ranges() {
    let mut cfg = WispConfig::default();
    cfg.blocked_ports = vec![PortRange { lo: 1000, hi: 2000 }];
    assert!(cfg.is_port_blocked(1000));
    assert!(cfg.is_port_blocked(1500));
    assert!(cfg.is_port_blocked(2000));
    assert!(!cfg.is_port_blocked(999));
    assert!(!cfg.is_port_blocked(2001));
}

#[test]
fn buffer_size_zero_is_default_sentinel() {
    let mut cfg = WispConfig::default();
    cfg.buffer_size = 0;
    assert_eq!(cfg.effective_buffer_size(), DEFAULT_BUFFER_SIZE);
    cfg.buffer_size = 4096;
    assert_eq!(cfg.effective_buffer_size(), 4096);
}

#[test]
fn empty_host_is_invalid() {
    let cfg = WispConfig::default();
    let r = resolve_packet(&connect(StreamType::Tcp, b"", 80), &cfg);
    assert_eq!(r, PolicyStep::Done(ResolvedStream::Invalid));
}

#[test]
fn other_stream_type_is_invalid() {
    let cfg = WispConfig::default();
    let r = resolve_packet(&connect(StreamType::Other(9), b"example.com", 80), &cfg);
    assert_eq!(r, PolicyStep::Done(ResolvedStream::Invalid));
}

#[test]
fn disallowed_kinds_are_blocked() {
    let mut cfg = WispConfig::default();
    cfg.allow_tcp = false;
    let r = resolve_packet(&connect(StreamType::Tcp, b"example.com", 80), &cfg);
    assert_eq!(r, PolicyStep::Done(ResolvedStream::Blocked));
    let mut cfg = WispConfig::default();
    cfg.allow_udp = false;
    let r = resolve_packet(&connect(StreamType::Udp, b"example.com", 80), &cfg);
    assert_eq!(r, PolicyStep::Done(ResolvedStream::Blocked));
}

#[test]
fn blocked_port_never_resolves() {
    // port 22 is blocked by default; the answer falls before any DNS
    let cfg = WispConfig::default();
    let r = resolve_packet(&connect(StreamType::Tcp, b"example.com", 22), &cfg);
    assert_eq!(r, PolicyStep::Done(ResolvedStream::Blocked));
    // and a blocked classification never opens a socket
    assert_eq!(
        dispatch_connect(&ResolvedStream::Blocked),
        StreamDispatch::Reject(CloseReason::ServerStreamBlockedAddress)
    );
}

#[test]
fn loopback_literal_blocked_by_default() {
    let cfg = WispConfig::default();
    let r = resolve_packet(&connect(StreamType::Tcp, b"::1", 80), &cfg);
    assert_eq!(r, PolicyStep::Done(ResolvedStream::Blocked));
    let r = resolve_packet(&connect(StreamType::Tcp, b"127.0.0.1", 80), &cfg);
    assert_eq!(r, PolicyStep::Done(ResolvedStream::Blocked));

    let mut cfg = WispConfig::default();
    cfg.allow_loopback = true;
    let r = resolve_packet(&connect(StreamType::Tcp, b"127.0.0.1", 9), &cfg);
    assert_eq!(
        r,
        PolicyStep::Done(ResolvedStream::Valid(ConnectTarget {
            stream_type: StreamType::Tcp,
            ip: v4(127, 0, 0, 1),
            port: 9,
        }))
    );
}

#[test]
fn hostname_needs_resolution() {
    let cfg = WispConfig::default();
    let r = resolve_packet(&connect(StreamType::Udp, b"dns.example", 53), &cfg);
    assert_eq!(r, PolicyStep::NeedsResolve);
}

#[test]
fn first_passing_address_wins() {
    // private-range answer skipped, the public one becomes the target
    let mut cfg = WispConfig::default();
    cfg.allow_private = false;
    let packet = connect(StreamType::Udp, b"dns.example", 53);
    let addrs = vec![v4(10, 0, 0, 5), v4(93, 184, 216, 34)];
    let r = select_resolved(&packet, &cfg, &addrs);
    assert_eq!(
        r,
        ResolvedStream::Valid(ConnectTarget {
            stream_type: StreamType::Udp,
            ip: v4(93, 184, 216, 34),
            port: 53,
        })
    );
}

#[test]
fn no_surviving_address() {
    let mut cfg = WispConfig::default();
    cfg.allow_private = false;
    let packet = connect(StreamType::Tcp, b"intra.example", 80);
    let addrs = vec![v4(10, 0, 0, 5), v4(192, 168, 1, 1)];
    assert_eq!(select_resolved(&packet, &cfg, &addrs), ResolvedStream::NoResolvedAddrs);
    assert_eq!(select_resolved(&packet, &cfg, &Vec::new()), ResolvedStream::NoResolvedAddrs);
}

#[test]
fn dispatch_reasons() {
    assert_eq!(
        dispatch_connect(&ResolvedStream::Invalid),
        StreamDispatch::Reject(CloseReason::ServerStreamInvalidInfo)
    );
    assert_eq!(
        dispatch_connect(&ResolvedStream::NoResolvedAddrs),
        StreamDispatch::Reject(CloseReason::ServerStreamUnreachable)
    );
    let t = ConnectTarget { stream_type: StreamType::Tcp, ip: v4(1, 1, 1, 1), port: 80 };
    assert_eq!(dispatch_connect(&ResolvedStream::Valid(t)), StreamDispatch::Connect(t));
}

#[test]
fn resolver_plan_choices() {
    assert_eq!(plan_resolver(&Vec::new()), ResolverPlan::FromSystemConf);
    assert_eq!(plan_resolver(&vec![b"not an ip".to_vec()]), ResolverPlan::System);
    assert_eq!(
        plan_resolver(&vec![b"1.1.1.1".to_vec(), b"bad".to_vec(), b"8.8.8.8".to_vec()]),
        ResolverPlan::Recursive(vec![v4(1, 1, 1, 1), v4(8, 8, 8, 8)])
    );
    let cfg = WispConfig::default();
    assert_eq!(
        plan_resolver(&cfg.dns_servers),
        ResolverPlan::Recursive(vec![v4(1, 1, 1, 1), v4(8, 8, 8, 8)])
    );
}
