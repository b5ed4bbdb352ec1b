//! IP addresses as plain values: the model type, the loopback / private
//! classification used by the policy, and a parser for IPv4 and IPv6
//! literals.

use vstd::prelude::*;

verus! {

/// An IPv4 address as its four octets.
#[derive(Clone, Copy, Debug, PartialEq, Eq, Structural)]
pub struct Ipv4Address {
    pub o0: u8,
    pub o1: u8,
    pub o2: u8,
    pub o3: u8,
}

/// An IPv6 address as its eight 16-bit segments.
#[derive(Clone, Copy, Debug, PartialEq, Eq, Structural)]
pub struct Ipv6Address {
    pub s0: u16,
    pub s1: u16,
    pub s2: u16,
    pub s3: u16,
    pub s4: u16,
    pub s5: u16,
    pub s6: u16,
    pub s7: u16,
}

/// An IPv4 or IPv6 address.
#[derive(Clone, Copy, Debug, PartialEq, Eq, Structural)]
pub enum IpAddress {
    V4(Ipv4Address),
    V6(Ipv6Address),
}

/// Split `s` at every occurrence of `sep`. The result always has one part
/// more than there are separators; parts may be empty.
pub open spec fn spec_split(s: Seq<u8>, sep: u8) -> Seq<Seq<u8>>
    decreases s.len(),
{
    if s.len() == 0 {
        seq![Seq::<u8>::empty()]
    } else if s[0] == sep {
        seq![Seq::<u8>::empty()] + spec_split(s.skip(1), sep)
    } else {
        let r = spec_split(s.skip(1), sep);
        seq![seq![s[0]] + r[0]] + r.skip(1)
    }
}

pub proof fn lemma_spec_split_len(s: Seq<u8>, sep: u8)
    ensures
        spec_split(s, sep).len() >= 1,
    decreases s.len(),
{
    if s.len() == 0 {
    } else {
        lemma_spec_split_len(s.skip(1), sep);
    }
}

/// Executable splitting, proved equal to [`spec_split`].
pub fn split_bytes(s: &[u8], sep: u8) -> (r: Vec<Vec<u8>>)
    ensures
        r@.map_values(|v: Vec<u8>| v@) == spec_split(s@, sep),
        r@.len() >= 1,
    decreases s@.len(),
{
    proof {
        lemma_spec_split_len(s@, sep);
    }
    if s.len() == 0 {
        let mut r: Vec<Vec<u8>> = Vec::new();
        r.push(Vec::new());
        proof {
            assert(r@.map_values(|v: Vec<u8>| v@) =~= spec_split(s@, sep));
        }
        r
    } else if s[0] == sep {
        let rest = &s[1..s.len()];
        proof {
            assert(rest@ =~= s@.skip(1));
        }
        let mut r = split_bytes(rest, sep);
        r.insert(0, Vec::new());
        proof {
            assert(r@.map_values(|v: Vec<u8>| v@) =~= spec_split(s@, sep));
        }
        r
    } else {
        let rest = &s[1..s.len()];
        proof {
            assert(rest@ =~= s@.skip(1));
        }
        let mut r = split_bytes(rest, sep);
        let mut first = r.remove(0);
        first.insert(0, s[0]);
        r.insert(0, first);
        proof {
            let m = r@.map_values(|v: Vec<u8>| v@);
            let t = spec_split(s@.skip(1), sep);
            assert(m.len() == t.len());
            assert(m[0] =~= seq![s@[0]] + t[0]);
            assert forall|i: int| 1 <= i < m.len() implies m[i] == t.skip(1)[i - 1] by {
            }
            assert(m =~= seq![seq![s@[0]] + t[0]] + t.skip(1));
        }
        r
    }
}

/// ASCII decimal digit.
pub open spec fn is_digit(b: u8) -> bool {
    48 <= b && b <= 57
}

/// ASCII hexadecimal digit (either case).
pub open spec fn is_hex_digit(b: u8) -> bool {
    is_digit(b) || (97 <= b && b <= 102) || (65 <= b && b <= 70)
}

/// Numeric value of a hexadecimal digit.
pub open spec fn hex_digit_val(b: u8) -> int {
    if is_digit(b) {
        b - 48
    } else if 97 <= b && b <= 102 {
        b - 87
    } else {
        b - 55
    }
}

/// The value of a decimal octet written as `g`: one to three digits, no
/// leading zero unless the octet is exactly `0`, value at most 255.
pub open spec fn spec_dec_octet(g: Seq<u8>) -> Option<u8> {
    if g.len() == 1 && is_digit(g[0]) {
        Some((g[0] - 48) as u8)
    } else if g.len() == 2 && g[0] != 48 && is_digit(g[0]) && is_digit(g[1]) {
        Some(((g[0] - 48) * 10 + (g[1] - 48)) as u8)
    } else if g.len() == 3 && g[0] != 48 && is_digit(g[0]) && is_digit(g[1]) && is_digit(g[2])
        && (g[0] - 48) * 100 + (g[1] - 48) * 10 + (g[2] - 48) <= 255 {
        Some(((g[0] - 48) * 100 + (g[1] - 48) * 10 + (g[2] - 48)) as u8)
    } else {
        None
    }
}

/// Executable decimal octet parsing, proved equal to [`spec_dec_octet`].
fn dec_octet(g: &[u8]) -> (r: Option<u8>)
    ensures
        r == spec_dec_octet(g@),
{
    if g.len() == 1 && 48 <= g[0] && g[0] <= 57 {
        Some(g[0] - 48)
    } else if g.len() == 2 && 49 <= g[0] && g[0] <= 57 && 48 <= g[1] && g[1] <= 57 {
        Some((g[0] - 48) * 10 + (g[1] - 48))
    } else if g.len() == 3 && 49 <= g[0] && g[0] <= 57 && 48 <= g[1] && g[1] <= 57 && 48 <= g[2]
        && g[2] <= 57 {
        let v: u16 = (g[0] - 48) as u16 * 100 + (g[1] - 48) as u16 * 10 + (g[2] - 48) as u16;
        if v <= 255 {
            Some(v as u8)
        } else {
            None
        }
    } else {
        None
    }
}

/// An IPv4 literal: four decimal octets separated by dots.
pub open spec fn spec_parse_ipv4(s: Seq<u8>) -> Option<Ipv4Address> {
    let parts = spec_split(s, 46);
    if parts.len() == 4 && spec_dec_octet(parts[0]).is_some() && spec_dec_octet(parts[1]).is_some()
        && spec_dec_octet(parts[2]).is_some() && spec_dec_octet(parts[3]).is_some() {
        Some(Ipv4Address {
            o0: spec_dec_octet(parts[0]).unwrap(),
            o1: spec_dec_octet(parts[1]).unwrap(),
            o2: spec_dec_octet(parts[2]).unwrap(),
            o3: spec_dec_octet(parts[3]).unwrap(),
        })
    } else {
        None
    }
}

/// Parse an IPv4 literal, proved equal to [`spec_parse_ipv4`].
pub fn parse_ipv4(s: &[u8]) -> (r: Option<Ipv4Address>)
    ensures
        r == spec_parse_ipv4(s@),
{
    let parts = split_bytes(s, 46);
    if parts.len() != 4 {
        return None;
    }
    let o0 = dec_octet(parts[0].as_slice());
    let o1 = dec_octet(parts[1].as_slice());
    let o2 = dec_octet(parts[2].as_slice());
    let o3 = dec_octet(parts[3].as_slice());
    match (o0, o1, o2, o3) {
        (Some(a), Some(b), Some(c), Some(d)) => Some(Ipv4Address { o0: a, o1: b, o2: c, o3: d }),
        _ => None,
    }
}

/// 16 to the power `n`.
pub open spec fn pow16(n: nat) -> int
    decreases n,
{
    if n == 0 {
        1
    } else {
        16 * pow16((n - 1) as nat)
    }
}

/// The numeric value of a string of hexadecimal digits (most significant
/// first); digits outside the hexadecimal range contribute garbage.
pub open spec fn hex_value(g: Seq<u8>) -> int
    decreases g.len(),
{
    if g.len() == 0 {
        0
    } else {
        hex_value(g.take(g.len() - 1)) * 16 + hex_digit_val(g[g.len() - 1])
    }
}

pub proof fn lemma_pow16_small()
    ensures
        pow16(0) == 1,
        pow16(1) == 16,
        pow16(2) == 256,
        pow16(3) == 4096,
        pow16(4) == 0x10000,
{
    reveal_with_fuel(pow16, 5);
}

pub proof fn lemma_hex_value_bound(g: Seq<u8>)
    requires
        forall|i: int| 0 <= i < g.len() ==> is_hex_digit(g[i]),
    ensures
        0 <= hex_value(g) < pow16(g.len()),
    decreases g.len(),
{
    if g.len() == 0 {
    } else {
        lemma_hex_value_bound(g.take(g.len() - 1));
    }
}

/// A group of an IPv6 literal: one to four hexadecimal digits.
pub open spec fn spec_hex_group(g: Seq<u8>) -> Option<u16> {
    if 1 <= g.len() && g.len() <= 4 && (forall|i: int| 0 <= i < g.len() ==> is_hex_digit(g[i])) {
        Some(hex_value(g) as u16)
    } else {
        None
    }
}

/// Executable hexadecimal digit test and value.
fn hex_digit(b: u8) -> (r: Option<u8>)
    ensures
        r.is_some() == is_hex_digit(b),
        r.is_some() ==> r.unwrap() == hex_digit_val(b),
{
    if 48 <= b && b <= 57 {
        Some(b - 48)
    } else if 97 <= b && b <= 102 {
        Some(b - 87)
    } else if 65 <= b && b <= 70 {
        Some(b - 55)
    } else {
        None
    }
}

/// Executable hex-group parsing, proved equal to [`spec_hex_group`].
fn hex_group(g: &[u8]) -> (r: Option<u16>)
    ensures
        r == spec_hex_group(g@),
{
    if g.len() < 1 || g.len() > 4 {
        return None;
    }
    let mut v: u32 = 0;
    let mut i: usize = 0;
    while i < g.len()
        invariant
            0 <= i <= g@.len(),
            1 <= g@.len() <= 4,
            forall|j: int| 0 <= j < i ==> is_hex_digit(g@[j]),
            v == hex_value(g@.take(i as int)),
            0 <= v < 0x10000,
        decreases g@.len() - i,
    {
        match hex_digit(g[i]) {
            Some(d) => {
                proof {
                    lemma_hex_value_bound(g@.take(i as int));
                    lemma_pow16_small();
                    assert(g@.take(i + 1).take(i as int) =~= g@.take(i as int));
                }
                v = v * 16 + d as u32;
                i = i + 1;
            },
            None => {
                return None;
            },
        }
    }
    proof {
        assert(g@.take(g@.len() as int) =~= g@);
        lemma_hex_value_bound(g@);
        lemma_pow16_small();
    }
    Some(v as u16)
}

/// Index of the first empty part, or `ps.len()` when no part is empty.
pub open spec fn first_empty(ps: Seq<Seq<u8>>) -> int
    decreases ps.len(),
{
    if ps.len() == 0 {
        0
    } else if ps[0].len() == 0 {
        0
    } else {
        1 + first_empty(ps.skip(1))
    }
}

proof fn lemma_first_empty_at(ps: Seq<Seq<u8>>, i: int)
    requires
        0 <= i <= ps.len(),
        forall|j: int| 0 <= j < i ==> ps[j].len() > 0,
        i < ps.len() ==> ps[i].len() == 0,
    ensures
        first_empty(ps) == i,
    decreases ps.len(),
{
    if i == 0 {
    } else {
        assert(ps[0].len() > 0);
        assert forall|j: int| 0 <= j < i - 1 implies ps.skip(1)[j].len() > 0 by {
            assert(ps.skip(1)[j] == ps[j + 1]);
        }
        if i - 1 < ps.skip(1).len() {
            assert(ps.skip(1)[i - 1] == ps[i]);
        }
        lemma_first_empty_at(ps.skip(1), i - 1);
    }
}

/// Every part with index in `[lo, hi)` is a valid hexadecimal group.
pub open spec fn all_groups(ps: Seq<Seq<u8>>, lo: int, hi: int) -> bool {
    forall|i: int| lo <= i < hi ==> spec_hex_group(ps[i]).is_some()
}

/// The group value as a `u16` (garbage for an invalid group).
pub open spec fn hex16(g: Seq<u8>) -> u16 {
    hex_value(g) as u16
}

/// The values of a sequence of groups.
pub open spec fn group_vals(ps: Seq<Seq<u8>>) -> Seq<u16> {
    ps.map_values(|g: Seq<u8>| hex16(g))
}

/// Segment `i` of an address written as head groups, a zero run, and tail
/// groups.
pub open spec fn val_at(hv: Seq<u16>, tv: Seq<u16>, i: int) -> u16 {
    if i < hv.len() {
        hv[i]
    } else if i >= 8 - tv.len() {
        tv[i - (8 - tv.len())]
    } else {
        0
    }
}

/// The address with head segments `hv`, tail segments `tv`, and zeroes in
/// between.
pub open spec fn ipv6_from_values(hv: Seq<u16>, tv: Seq<u16>) -> Ipv6Address {
    Ipv6Address {
        s0: val_at(hv, tv, 0),
        s1: val_at(hv, tv, 1),
        s2: val_at(hv, tv, 2),
        s3: val_at(hv, tv, 3),
        s4: val_at(hv, tv, 4),
        s5: val_at(hv, tv, 5),
        s6: val_at(hv, tv, 6),
        s7: val_at(hv, tv, 7),
    }
}

/// An IPv6 literal: colon-separated hexadecimal groups, with at most one
/// `::` standing for a run of one or more zero groups. A dotted-quad tail
/// (an IPv4 address as the last two groups) is not part of this grammar: a
/// host written that way is treated as a name.
pub open spec fn spec_parse_ipv6(s: Seq<u8>) -> Option<Ipv6Address> {
    let ps = spec_split(s, 58);
    let n = ps.len() as int;
    let fe = first_empty(ps);
    if fe == n && n == 8 && all_groups(ps, 0, 8) {
        Some(ipv6_from_values(group_vals(ps), Seq::<u16>::empty()))
    } else if fe == 0 && n == 3 && ps[1].len() == 0 && ps[2].len() == 0 {
        // the literal `::`
        Some(ipv6_from_values(Seq::<u16>::empty(), Seq::<u16>::empty()))
    } else if fe == 0 && 3 <= n && n <= 9 && ps[1].len() == 0 && all_groups(ps, 2, n) {
        // leading `::`
        Some(ipv6_from_values(Seq::<u16>::empty(), group_vals(ps.skip(2))))
    } else if fe == n - 2 && 3 <= n && n <= 9 && ps[n - 1].len() == 0 && all_groups(ps, 0, n - 2) {
        // trailing `::`
        Some(ipv6_from_values(group_vals(ps.take(n - 2)), Seq::<u16>::empty()))
    } else if 1 <= fe && fe <= n - 2 && n <= 8 && all_groups(ps, 0, fe) && all_groups(
        ps,
        fe + 1,
        n,
    ) {
        // `::` in the middle
        Some(ipv6_from_values(group_vals(ps.take(fe)), group_vals(ps.skip(fe + 1))))
    } else {
        None
    }
}

/// Parse the parts with indices `[lo, hi)` as hexadecimal groups.
fn parse_groups(parts: &Vec<Vec<u8>>, lo: usize, hi: usize) -> (r: Option<Vec<u16>>)
    requires
        lo <= hi <= parts@.len(),
    ensures
        r.is_some() == all_groups(parts@.map_values(|v: Vec<u8>| v@), lo as int, hi as int),
        r.is_some() ==> r.unwrap()@ == group_vals(
            parts@.map_values(|v: Vec<u8>| v@).subrange(lo as int, hi as int),
        ),
{
    let ghost ps = parts@.map_values(|v: Vec<u8>| v@);
    let mut out: Vec<u16> = Vec::new();
    let mut i: usize = lo;
    while i < hi
        invariant
            lo <= i <= hi <= parts@.len(),
            ps == parts@.map_values(|v: Vec<u8>| v@),
            out@.len() == i - lo,
            forall|j: int| lo <= j < i ==> spec_hex_group(ps[j]).is_some(),
            forall|j: int| lo <= j < i ==> out@[j - lo] == hex16(ps[j]),
        decreases hi - i,
    {
        match hex_group(parts[i].as_slice()) {
            Some(v) => {
                out.push(v);
            },
            None => {
                assert(ps[i as int] == parts@[i as int]@);
                assert(!all_groups(ps, lo as int, hi as int));
                return None;
            },
        }
        i = i + 1;
    }
    proof {
        assert(out@ =~= group_vals(ps.subrange(lo as int, hi as int)));
    }
    Some(out)
}

/// Segment selection, proved equal to [`val_at`].
fn val_at_exec(head: &Vec<u16>, tail: &Vec<u16>, i: usize) -> (r: u16)
    requires
        head@.len() + tail@.len() <= 8,
        i < 8,
    ensures
        r == val_at(head@, tail@, i as int),
{
    if i < head.len() {
        head[i]
    } else if i >= 8 - tail.len() {
        tail[i - (8 - tail.len())]
    } else {
        0
    }
}

/// Build the address from parsed head and tail segments.
fn assemble_ipv6(head: &Vec<u16>, tail: &Vec<u16>) -> (a: Ipv6Address)
    requires
        head@.len() + tail@.len() <= 8,
    ensures
        a == ipv6_from_values(head@, tail@),
{
    Ipv6Address {
        s0: val_at_exec(head, tail, 0),
        s1: val_at_exec(head, tail, 1),
        s2: val_at_exec(head, tail, 2),
        s3: val_at_exec(head, tail, 3),
        s4: val_at_exec(head, tail, 4),
        s5: val_at_exec(head, tail, 5),
        s6: val_at_exec(head, tail, 6),
        s7: val_at_exec(head, tail, 7),
    }
}

/// Parse an IPv6 literal, proved equal to [`spec_parse_ipv6`].
pub fn parse_ipv6(s: &[u8]) -> (r: Option<Ipv6Address>)
    ensures
        r == spec_parse_ipv6(s@),
{
    let parts = split_bytes(s, 58);
    let ghost ps = parts@.map_values(|v: Vec<u8>| v@);
    let n = parts.len();

    // find the first empty part
    let mut fe: usize = 0;
    while fe < n && parts[fe].len() > 0
        invariant
            0 <= fe <= n,
            n == parts@.len(),
            ps == parts@.map_values(|v: Vec<u8>| v@),
            forall|j: int| 0 <= j < fe ==> ps[j].len() > 0,
        decreases n - fe,
    {
        fe = fe + 1;
    }
    proof {
        lemma_first_empty_at(ps, fe as int);
    }

    if fe == n && n == 8 {
        match parse_groups(&parts, 0, 8) {
            Some(v) => {
                proof {
                    assert(ps.subrange(0, 8) =~= ps);
                }
                let empty: Vec<u16> = Vec::new();
                Some(assemble_ipv6(&v, &empty))
            },
            None => None,
        }
    } else if fe == 0 && n == 3 && parts[1].len() == 0 && parts[2].len() == 0 {
        let empty: Vec<u16> = Vec::new();
        Some(assemble_ipv6(&empty, &empty))
    } else if fe == 0 && 3 <= n && n <= 9 && parts[1].len() == 0 {
        match parse_groups(&parts, 2, n) {
            Some(v) => {
                proof {
                    assert(ps.subrange(2, n as int) =~= ps.skip(2));
                }
                let empty: Vec<u16> = Vec::new();
                Some(assemble_ipv6(&empty, &v))
            },
            None => None,
        }
    } else if n >= 3 && fe == n - 2 && n <= 9 && parts[n - 1].len() == 0 {
        match parse_groups(&parts, 0, n - 2) {
            Some(v) => {
                proof {
                    assert(ps.subrange(0, n - 2) =~= ps.take(n - 2));
                }
                let empty: Vec<u16> = Vec::new();
                Some(assemble_ipv6(&v, &empty))
            },
            None => None,
        }
    } else if 1 <= fe && n >= 2 && fe <= n - 2 && n <= 8 {
        match parse_groups(&parts, 0, fe) {
            Some(hv) => {
                match parse_groups(&parts, fe + 1, n) {
                    Some(tv) => {
                        proof {
                            assert(ps.subrange(0, fe as int) =~= ps.take(fe as int));
                            assert(ps.subrange(fe + 1, n as int) =~= ps.skip(fe + 1));
                        }
                        Some(assemble_ipv6(&hv, &tv))
                    },
                    None => None,
                }
            },
            None => None,
        }
    } else {
        None
    }
}

/// An IP literal: an IPv4 literal, else an IPv6 literal.
pub open spec fn spec_parse_ip(s: Seq<u8>) -> Option<IpAddress> {
    if spec_parse_ipv4(s).is_some() {
        Some(IpAddress::V4(spec_parse_ipv4(s).unwrap()))
    } else if spec_parse_ipv6(s).is_some() {
        Some(IpAddress::V6(spec_parse_ipv6(s).unwrap()))
    } else {
        None
    }
}

/// Parse an IP literal, proved equal to [`spec_parse_ip`].
pub fn parse_ip(s: &[u8]) -> (r: Option<IpAddress>)
    ensures
        r == spec_parse_ip(s@),
{
    match parse_ipv4(s) {
        Some(a) => Some(IpAddress::V4(a)),
        None => match parse_ipv6(s) {
            Some(a) => Some(IpAddress::V6(a)),
            None => None,
        },
    }
}

impl Ipv4Address {
    /// `127.0.0.0/8`.
    pub open spec fn spec_loopback(self) -> bool {
        self.o0 == 127
    }

    /// Private in the broad sense used by the policy: RFC 1918 ranges,
    /// loopback, or link-local `169.254.0.0/16`.
    pub open spec fn spec_private(self) -> bool {
        self.o0 == 10 || (self.o0 == 172 && 16 <= self.o1 && self.o1 <= 31) || (self.o0 == 192
            && self.o1 == 168) || self.spec_loopback() || (self.o0 == 169 && self.o1 == 254)
    }
}

impl Ipv6Address {
    /// The loopback address `::1`.
    pub open spec fn spec_loopback(self) -> bool {
        self.s0 == 0 && self.s1 == 0 && self.s2 == 0 && self.s3 == 0 && self.s4 == 0 && self.s5
            == 0 && self.s6 == 0 && self.s7 == 1
    }

    /// Private in the broad sense used by the policy: loopback, unique-local
    /// `fc00::/7`, or link-local `fe80::/10`.
    pub open spec fn spec_private(self) -> bool {
        self.spec_loopback() || (self.s0 & 0xfe00) == 0xfc00 || (self.s0 & 0xffc0) == 0xfe80
    }
}

impl IpAddress {
    /// Loopback classification.
    pub open spec fn spec_loopback(self) -> bool {
        match self {
            IpAddress::V4(a) => a.spec_loopback(),
            IpAddress::V6(a) => a.spec_loopback(),
        }
    }

    /// Private (non-global) classification, as the policy uses it.
    pub open spec fn spec_private(self) -> bool {
        match self {
            IpAddress::V4(a) => a.spec_private(),
            IpAddress::V6(a) => a.spec_private(),
        }
    }

    /// True for loopback addresses.
    pub fn is_loopback(&self) -> (r: bool)
        ensures
            r == self.spec_loopback(),
    {
        match self {
            IpAddress::V4(a) => a.o0 == 127,
            IpAddress::V6(a) => a.s0 == 0 && a.s1 == 0 && a.s2 == 0 && a.s3 == 0 && a.s4 == 0
                && a.s5 == 0 && a.s6 == 0 && a.s7 == 1,
        }
    }

    /// True for loopback, private-range, or link-local addresses.
    pub fn is_private(&self) -> (r: bool)
        ensures
            r == self.spec_private(),
    {
        match self {
            IpAddress::V4(a) => a.o0 == 10 || (a.o0 == 172 && 16 <= a.o1 && a.o1 <= 31) || (a.o0
                == 192 && a.o1 == 168) || a.o0 == 127 || (a.o0 == 169 && a.o1 == 254),
            IpAddress::V6(a) => (a.s0 == 0 && a.s1 == 0 && a.s2 == 0 && a.s3 == 0 && a.s4 == 0
                && a.s5 == 0 && a.s6 == 0 && a.s7 == 1) || (a.s0 & 0xfe00) == 0xfc00 || (a.s0
                & 0xffc0) == 0xfe80,
        }
    }
}

} // verus!
