//! Server configuration: which stream kinds are allowed, which addresses and
//! ports are blocked, buffer sizing, and the DNS servers to use.

use vstd::prelude::*;

verus! {

/// Buffer size (and initial flow-control window) used when the configured
/// value is the `0` sentinel.
pub const DEFAULT_BUFFER_SIZE: usize = 16384;

/// An inclusive range of ports, `lo..=hi`.
#[derive(Clone, Copy, Debug, PartialEq, Eq, Structural)]
pub struct PortRange {
    pub lo: u16,
    pub hi: u16,
}

impl PortRange {
    /// True when `port` lies inside the range.
    pub open spec fn spec_contains(self, port: u16) -> bool {
        self.lo <= port && port <= self.hi
    }

    /// Executable membership test.
    pub fn contains_port(&self, port: u16) -> (r: bool)
        ensures
            r == self.spec_contains(port),
    {
        self.lo <= port && port <= self.hi
    }
}

/// Configuration for the Wisp proxy server.
#[derive(Clone, Debug)]
pub struct WispConfig {
    /// Allow UDP streams.
    pub allow_udp: bool,
    /// Allow TCP streams.
    pub allow_tcp: bool,
    /// Allow connections to loopback addresses.
    pub allow_loopback: bool,
    /// Allow connections to private (non-global) addresses.
    pub allow_private: bool,
    /// Buffer size for stream copying; also the initial flow-control window.
    /// `0` is a sentinel for "use the default".
    pub buffer_size: usize,
    /// Blocked port ranges; a connect to a port inside any of them is refused.
    pub blocked_ports: Vec<PortRange>,
    /// DNS server addresses as byte strings of IP literals; empty means "use
    /// the system resolver".
    pub dns_servers: Vec<Vec<u8>>,
}

impl WispConfig {
    /// True when `port` falls in one of the blocked ranges.
    pub open spec fn spec_port_blocked(&self, port: u16) -> bool {
        exists|i: int| 0 <= i < self.blocked_ports@.len() && self.blocked_ports@[i].spec_contains(port)
    }

    /// Check if a port is blocked.
    pub fn is_port_blocked(&self, port: u16) -> (r: bool)
        ensures
            r == self.spec_port_blocked(port),
    {
        let mut i: usize = 0;
        while i < self.blocked_ports.len()
            invariant
                0 <= i <= self.blocked_ports@.len(),
                forall|j: int| 0 <= j < i ==> !self.blocked_ports@[j].spec_contains(port),
            decreases self.blocked_ports@.len() - i,
        {
            if self.blocked_ports[i].contains_port(port) {
                return true;
            }
            i = i + 1;
        }
        false
    }

    /// The buffer size actually used: the configured value, with `0` standing
    /// for the default.
    pub open spec fn spec_effective_buffer_size(&self) -> usize {
        if self.buffer_size == 0 {
            DEFAULT_BUFFER_SIZE
        } else {
            self.buffer_size
        }
    }

    /// Resolve the `0` sentinel to the default buffer size.
    pub fn effective_buffer_size(&self) -> (r: usize)
        ensures
            r == self.spec_effective_buffer_size(),
            r > 0,
    {
        if self.buffer_size == 0 {
            DEFAULT_BUFFER_SIZE
        } else {
            self.buffer_size
        }
    }
}

/// The whole default configuration: TCP and UDP on, loopback off, private
/// on, a 16 KiB buffer, ports 22, 25 and 587 blocked, and the two public
/// DNS servers `1.1.1.1` and `8.8.8.8`.
pub open spec fn spec_default_config(c: WispConfig) -> bool {
    &&& c.allow_udp && c.allow_tcp && !c.allow_loopback && c.allow_private
    &&& c.buffer_size == DEFAULT_BUFFER_SIZE
    &&& c.blocked_ports@.len() == 3
    &&& c.blocked_ports@[0] == (PortRange { lo: 22, hi: 22 })
    &&& c.blocked_ports@[1] == (PortRange { lo: 25, hi: 25 })
    &&& c.blocked_ports@[2] == (PortRange { lo: 587, hi: 587 })
    &&& c.dns_servers@.len() == 2
    &&& c.dns_servers@[0]@ == seq![49u8, 46u8, 49u8, 46u8, 49u8, 46u8, 49u8]
    &&& c.dns_servers@[1]@ == seq![56u8, 46u8, 56u8, 46u8, 56u8, 46u8, 56u8]
}

impl Default for WispConfig {
    /// The default policy, exactly [`spec_default_config`].
    fn default() -> (c: WispConfig)
        ensures
            spec_default_config(c),
    {
        let mut blocked: Vec<PortRange> = Vec::new();
        blocked.push(PortRange { lo: 22, hi: 22 });  // SSH
        blocked.push(PortRange { lo: 25, hi: 25 });  // SMTP
        blocked.push(PortRange { lo: 587, hi: 587 });  // SMTP submission
        let mut dns: Vec<Vec<u8>> = Vec::new();
        dns.push(ascii_bytes_1111());
        dns.push(ascii_bytes_8888());
        WispConfig {
            allow_udp: true,
            allow_tcp: true,
            allow_loopback: false,
            allow_private: true,
            buffer_size: DEFAULT_BUFFER_SIZE,
            blocked_ports: blocked,
            dns_servers: dns,
        }
    }
}

/// The byte string `"1.1.1.1"`.
fn ascii_bytes_1111() -> (v: Vec<u8>)
    ensures
        v@ == seq![49u8, 46u8, 49u8, 46u8, 49u8, 46u8, 49u8],
{
    let mut v: Vec<u8> = Vec::new();
    v.push(49);
    v.push(46);
    v.push(49);
    v.push(46);
    v.push(49);
    v.push(46);
    v.push(49);
    proof {
        assert(v@ =~= seq![49u8, 46u8, 49u8, 46u8, 49u8, 46u8, 49u8]);
    }
    v
}

/// The byte string `"8.8.8.8"`.
fn ascii_bytes_8888() -> (v: Vec<u8>)
    ensures
        v@ == seq![56u8, 46u8, 56u8, 46u8, 56u8, 46u8, 56u8],
{
    let mut v: Vec<u8> = Vec::new();
    v.push(56);
    v.push(46);
    v.push(56);
    v.push(46);
    v.push(56);
    v.push(46);
    v.push(56);
    proof {
        assert(v@ =~= seq![56u8, 46u8, 56u8, 46u8, 56u8, 46u8, 56u8]);
    }
    v
}

} // verus!
