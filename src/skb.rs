//! Decoders of the raw sections of the skb module into the skb event section.

use vstd::prelude::*;

use crate::error::RetisError;
use crate::raw::{be16, be32, raw_views, read_be16, read_be32, RawSection, RawSectionView};

verus! {

/// Valid raw event sections of the skb collector.
pub const SECTION_L2: u8 = 0;
pub const SECTION_IPV4: u8 = 1;
pub const SECTION_IPV6: u8 = 2;
pub const SECTION_TCP: u8 = 3;
pub const SECTION_UDP: u8 = 4;
pub const SECTION_ICMP: u8 = 5;

/// Packed sizes of the raw structures.
pub const L2_SIZE: usize = 14;
pub const IPV4_SIZE: usize = 11;
pub const IPV6_SIZE: usize = 35;
pub const TCP_SIZE: usize = 16;
pub const UDP_SIZE: usize = 6;
pub const ICMP_SIZE: usize = 2;

/// An IP address, bytes in network order.
#[derive(Debug, Clone, Copy, PartialEq, Eq)]
pub enum IpAddress {
    V4([u8; 4]),
    V6([u8; 16]),
}

/// Skb event section.
#[derive(Debug)]
pub struct SkbEvent {
    /// Ethertype.
    pub etype: Option<u16>,
    /// Source MAC address.
    pub src: Option<[u8; 6]>,
    /// Destination MAC address.
    pub dst: Option<[u8; 6]>,
    /// Source IP address.
    pub saddr: Option<IpAddress>,
    /// Destination IP address.
    pub daddr: Option<IpAddress>,
    /// IP version: 4 or 6.
    pub ip_version: Option<u8>,
    /// "total len" from the IPv4 header or "payload length" from the IPv6 one.
    pub l3_len: Option<u16>,
    /// L4 protocol, from IPv4 "protocol" field or IPv6 "next header" one.
    pub protocol: Option<u8>,
    /// Source port.
    pub sport: Option<u16>,
    /// Destination port.
    pub dport: Option<u16>,
    pub tcp_seq: Option<u32>,
    pub tcp_ack_seq: Option<u32>,
    pub tcp_window: Option<u16>,
    /// Bitfield of TCP flags as defined in `struct tcphdr` in the kernel.
    pub tcp_flags: Option<u8>,
    /// TCP header size in 32-bit words.
    pub tcp_doff: Option<u8>,
    /// Length from the UDP header.
    pub udp_len: Option<u16>,
    pub icmp_type: Option<u8>,
    pub icmp_code: Option<u8>,
}

impl SkbEvent {
    /// An event with no field set.
    pub fn empty() -> (r: SkbEvent)
        ensures
            r.etype is None && r.src is None && r.dst is None && r.saddr is None && r.daddr is None
                && r.ip_version is None && r.l3_len is None && r.protocol is None && r.sport is None
                && r.dport is None && r.tcp_seq is None && r.tcp_ack_seq is None && r.tcp_window is None
                && r.tcp_flags is None && r.tcp_doff is None && r.udp_len is None && r.icmp_type is None
                && r.icmp_code is None,
    {
        SkbEvent {
            etype: None,
            src: None,
            dst: None,
            saddr: None,
            daddr: None,
            ip_version: None,
            l3_len: None,
            protocol: None,
            sport: None,
            dport: None,
            tcp_seq: None,
            tcp_ack_seq: None,
            tcp_window: None,
            tcp_flags: None,
            tcp_doff: None,
            udp_len: None,
            icmp_type: None,
            icmp_code: None,
        }
    }
}

/// TCP data retrieved from SKBs.
#[derive(Debug, Clone, Copy, PartialEq, Eq, Structural)]
pub struct SkbTcpEvent {
    pub sport: u16,
    pub dport: u16,
    pub seq: u32,
    pub ack_seq: u32,
    pub window: u16,
    /// TCP flags: fin, syn, rst, psh, ack, urg, ece, cwr.
    pub flags: u8,
    /// TCP data offset: size of the TCP header in 32-bit words.
    pub doff: u8,
}

/// Bit `k` of `f`.
pub open spec fn bit(f: u8, k: nat) -> u8 {
    ((f as nat / pow2(k)) % 2) as u8
}

pub open spec fn pow2(k: nat) -> nat
    decreases k,
{
    if k == 0 {
        1
    } else {
        2 * pow2((k - 1) as nat)
    }
}

proof fn lemma_pow2_small()
    ensures
        pow2(0) == 1,
        pow2(1) == 2,
        pow2(2) == 4,
        pow2(3) == 8,
        pow2(4) == 16,
        pow2(5) == 32,
        pow2(6) == 64,
        pow2(7) == 128,
{
    assert(pow2(0) == 1);
    assert(pow2(1) == 2);
    assert(pow2(2) == 4);
    assert(pow2(3) == 8);
    assert(pow2(4) == 16);
    assert(pow2(5) == 32);
    assert(pow2(6) == 64);
    assert(pow2(7) == 128);
}

impl SkbTcpEvent {
    pub fn fin(&self) -> (r: u8)
        ensures
            r == bit(self.flags, 0),
    {
        let f = self.flags;
        assert(f & 1 == f % 2) by (bit_vector);
        proof {
            lemma_pow2_small();
        }
        f & 1
    }

    pub fn syn(&self) -> (r: u8)
        ensures
            r == bit(self.flags, 1),
    {
        let f = self.flags;
        assert((f >> 1u8) & 1 == (f / 2) % 2) by (bit_vector);
        proof {
            lemma_pow2_small();
        }
        (f >> 1) & 1
    }

    pub fn rst(&self) -> (r: u8)
        ensures
            r == bit(self.flags, 2),
    {
        let f = self.flags;
        assert((f >> 2u8) & 1 == (f / 4) % 2) by (bit_vector);
        proof {
            lemma_pow2_small();
        }
        (f >> 2) & 1
    }

    pub fn psh(&self) -> (r: u8)
        ensures
            r == bit(self.flags, 3),
    {
        let f = self.flags;
        assert((f >> 3u8) & 1 == (f / 8) % 2) by (bit_vector);
        proof {
            lemma_pow2_small();
        }
        (f >> 3) & 1
    }

    pub fn ack(&self) -> (r: u8)
        ensures
            r == bit(self.flags, 4),
    {
        let f = self.flags;
        assert((f >> 4u8) & 1 == (f / 16) % 2) by (bit_vector);
        proof {
            lemma_pow2_small();
        }
        (f >> 4) & 1
    }

    pub fn urg(&self) -> (r: u8)
        ensures
            r == bit(self.flags, 5),
    {
        let f = self.flags;
        assert((f >> 5u8) & 1 == (f / 32) % 2) by (bit_vector);
        proof {
            lemma_pow2_small();
        }
        (f >> 5) & 1
    }

    pub fn ece(&self) -> (r: u8)
        ensures
            r == bit(self.flags, 6),
    {
        let f = self.flags;
        assert((f >> 6u8) & 1 == (f / 64) % 2) by (bit_vector);
        proof {
            lemma_pow2_small();
        }
        (f >> 6) & 1
    }

    pub fn cwr(&self) -> (r: u8)
        ensures
            r == bit(self.flags, 7),
    {
        let f = self.flags;
        assert((f >> 7u8) & 1 == (f / 128) % 2) by (bit_vector);
        proof {
            lemma_pow2_small();
        }
        (f >> 7) & 1
    }
}

/// What a l2 section does to the event: `b` before, `a` after.
pub open spec fn l2_applied(b: SkbEvent, d: Seq<u8>, a: SkbEvent) -> bool {
    a == (SkbEvent {
            etype: Some(be16(d, 12) as u16),
            src: a.src,
            dst: a.dst,
            ..b
        }) && (a.src matches Some(m) && m@ == d.subrange(0, 6)) && (
        a.dst matches Some(m) && m@ == d.subrange(6, 12))
}

/// What a ipv4 section does to the event: `b` before, `a` after.
pub open spec fn ipv4_applied(b: SkbEvent, d: Seq<u8>, a: SkbEvent) -> bool {
    a == (SkbEvent {
            saddr: a.saddr,
            daddr: a.daddr,
            ip_version: Some(4u8),
            l3_len: Some(be16(d, 8) as u16),
            protocol: Some(d[10]),
            ..b
        }) && (a.saddr matches Some(IpAddress::V4(x)) && x@ == d.subrange(0, 4)) && (
        a.daddr matches Some(IpAddress::V4(x)) && x@ == d.subrange(4, 8))
}

/// What a ipv6 section does to the event: `b` before, `a` after.
pub open spec fn ipv6_applied(b: SkbEvent, d: Seq<u8>, a: SkbEvent) -> bool {
    a == (SkbEvent {
            saddr: a.saddr,
            daddr: a.daddr,
            ip_version: Some(6u8),
            l3_len: Some(be16(d, 32) as u16),
            protocol: Some(d[34]),
            ..b
        }) && (a.saddr matches Some(IpAddress::V6(x)) && x@ == d.subrange(0, 16)) && (
        a.daddr matches Some(IpAddress::V6(x)) && x@ == d.subrange(16, 32))
}

/// What a tcp section does to the event: `b` before, `a` after.
pub open spec fn tcp_applied(b: SkbEvent, d: Seq<u8>, a: SkbEvent) -> bool {
    a == (SkbEvent {
            sport: Some(be16(d, 0) as u16),
            dport: Some(be16(d, 2) as u16),
            tcp_seq: Some(be32(d, 4) as u32),
            tcp_ack_seq: Some(be32(d, 8) as u32),
            tcp_window: Some(be16(d, 12) as u16),
            tcp_flags: Some(d[14]),
            tcp_doff: Some(d[15]),
            ..b
        })
}

/// What a udp section does to the event: `b` before, `a` after.
pub open spec fn udp_applied(b: SkbEvent, d: Seq<u8>, a: SkbEvent) -> bool {
    a == (SkbEvent {
            sport: Some(be16(d, 0) as u16),
            dport: Some(be16(d, 2) as u16),
            udp_len: Some(be16(d, 4) as u16),
            ..b
        })
}

/// What a icmp section does to the event: `b` before, `a` after.
pub open spec fn icmp_applied(b: SkbEvent, d: Seq<u8>, a: SkbEvent) -> bool {
    a == (SkbEvent {
            icmp_type: Some(d[0]),
            icmp_code: Some(d[1]),
            ..b
        })
}

/// What a raw section does to the event, when it decodes.
pub open spec fn section_applied(b: SkbEvent, sec: RawSectionView, a: SkbEvent) -> bool {
    let t = sec.data_type;
    let d = sec.data;
    if t == SECTION_L2 {
        l2_applied(b, d, a)
    } else if t == SECTION_IPV4 {
        ipv4_applied(b, d, a)
    } else if t == SECTION_IPV6 {
        ipv6_applied(b, d, a)
    } else if t == SECTION_TCP {
        tcp_applied(b, d, a)
    } else if t == SECTION_UDP {
        udp_applied(b, d, a)
    } else {
        icmp_applied(b, d, a)
    }
}

/// Whether `chain` runs from the empty event through the sections in order.
pub open spec fn decode_chain(secs: Seq<RawSectionView>, chain: Seq<SkbEvent>) -> bool {
    &&& chain.len() == secs.len() + 1
    &&& is_empty_event(chain[0])
    &&& forall|i: int| 0 <= i < secs.len() ==> section_applied(chain[i], #[trigger] secs[i], chain[i + 1])
}

pub open spec fn is_empty_event(r: SkbEvent) -> bool {
    r.etype is None && r.src is None && r.dst is None && r.saddr is None && r.daddr is None
        && r.ip_version is None && r.l3_len is None && r.protocol is None && r.sport is None
        && r.dport is None && r.tcp_seq is None && r.tcp_ack_seq is None && r.tcp_window is None
        && r.tcp_flags is None && r.tcp_doff is None && r.udp_len is None && r.icmp_type is None
        && r.icmp_code is None
}

fn check_size(raw: &RawSection, size: usize) -> (r: Result<(), RetisError>)
    ensures
        raw.data@.len() == size ==> r is Ok,
        raw.data@.len() != size ==> r == Err::<(), RetisError>(RetisError::SectionSizeMismatch),
{
    if raw.data.len() != size {
        Err(RetisError::SectionSizeMismatch)
    } else {
        Ok(())
    }
}

/// L2 section: source MAC, destination MAC, ethertype in network order.
pub fn unmarshal_l2(raw: &RawSection, event: &mut SkbEvent) -> (r: Result<(), RetisError>)
    ensures
        raw.data@.len() != L2_SIZE ==> r == Err::<(), RetisError>(RetisError::SectionSizeMismatch)
            && *final(event) == *old(event),
        raw.data@.len() == L2_SIZE ==> r is Ok && l2_applied(*old(event), raw.data@, *final(event)),
{
    check_size(raw, L2_SIZE)?;
    let d = &raw.data;
    let src = [d[0], d[1], d[2], d[3], d[4], d[5]];
    let dst = [d[6], d[7], d[8], d[9], d[10], d[11]];
    assert(src@ =~= d@.subrange(0, 6));
    assert(dst@ =~= d@.subrange(6, 12));
    event.etype = Some(read_be16(d, 12));
    event.src = Some(src);
    event.dst = Some(dst);
    Ok(())
}

/// IPv4 section: addresses and length in network order, then the protocol.
pub fn unmarshal_ipv4(raw: &RawSection, event: &mut SkbEvent) -> (r: Result<(), RetisError>)
    ensures
        raw.data@.len() != IPV4_SIZE ==> r == Err::<(), RetisError>(RetisError::SectionSizeMismatch)
            && *final(event) == *old(event),
        raw.data@.len() == IPV4_SIZE ==> r is Ok && ipv4_applied(*old(event), raw.data@, *final(event)),
{
    check_size(raw, IPV4_SIZE)?;
    let d = &raw.data;
    let src = [d[0], d[1], d[2], d[3]];
    let dst = [d[4], d[5], d[6], d[7]];
    assert(src@ =~= d@.subrange(0, 4));
    assert(dst@ =~= d@.subrange(4, 8));
    event.saddr = Some(IpAddress::V4(src));
    event.daddr = Some(IpAddress::V4(dst));
    event.ip_version = Some(4);
    event.l3_len = Some(read_be16(d, 8));
    event.protocol = Some(d[10]);
    Ok(())
}

fn ipv6_at(d: &Vec<u8>, off: usize) -> (r: [u8; 16])
    requires
        off + 16 <= d.len(),
    ensures
        r@ == d@.subrange(off as int, off + 16),
{
    let r = [
        d[off], d[off + 1], d[off + 2], d[off + 3], d[off + 4], d[off + 5], d[off + 6], d[off + 7],
        d[off + 8], d[off + 9], d[off + 10], d[off + 11], d[off + 12], d[off + 13], d[off + 14], d[off + 15],
    ];
    assert(r@ =~= d@.subrange(off as int, off + 16));
    r
}

/// IPv6 section: addresses and payload length in network order, then the
/// next header.
pub fn unmarshal_ipv6(raw: &RawSection, event: &mut SkbEvent) -> (r: Result<(), RetisError>)
    ensures
        raw.data@.len() != IPV6_SIZE ==> r == Err::<(), RetisError>(RetisError::SectionSizeMismatch)
            && *final(event) == *old(event),
        raw.data@.len() == IPV6_SIZE ==> r is Ok && ipv6_applied(*old(event), raw.data@, *final(event)),
{
    check_size(raw, IPV6_SIZE)?;
    let d = &raw.data;
    event.saddr = Some(IpAddress::V6(ipv6_at(d, 0)));
    event.daddr = Some(IpAddress::V6(ipv6_at(d, 16)));
    event.ip_version = Some(6);
    event.l3_len = Some(read_be16(d, 32));
    event.protocol = Some(d[34]);
    Ok(())
}

/// Reads a TCP section.
pub fn parse_tcp(raw: &RawSection) -> (r: Result<SkbTcpEvent, RetisError>)
    ensures
        raw.data@.len() != TCP_SIZE ==> r == Err::<SkbTcpEvent, RetisError>(RetisError::SectionSizeMismatch),
        raw.data@.len() == TCP_SIZE ==> r == Ok::<SkbTcpEvent, RetisError>(SkbTcpEvent {
            sport: be16(raw.data@, 0) as u16,
            dport: be16(raw.data@, 2) as u16,
            seq: be32(raw.data@, 4) as u32,
            ack_seq: be32(raw.data@, 8) as u32,
            window: be16(raw.data@, 12) as u16,
            flags: raw.data@[14],
            doff: raw.data@[15],
        }),
{
    check_size(raw, TCP_SIZE)?;
    let d = &raw.data;
    Ok(SkbTcpEvent {
        sport: read_be16(d, 0),
        dport: read_be16(d, 2),
        seq: read_be32(d, 4),
        ack_seq: read_be32(d, 8),
        window: read_be16(d, 12),
        flags: d[14],
        doff: d[15],
    })
}

/// TCP section: ports, sequence numbers and window in network order, then
/// the flags and the data offset.
pub fn unmarshal_tcp(raw: &RawSection, event: &mut SkbEvent) -> (r: Result<(), RetisError>)
    ensures
        raw.data@.len() != TCP_SIZE ==> r == Err::<(), RetisError>(RetisError::SectionSizeMismatch)
            && *final(event) == *old(event),
        raw.data@.len() == TCP_SIZE ==> r is Ok && tcp_applied(*old(event), raw.data@, *final(event)),
{
    let tcp = parse_tcp(raw)?;
    event.sport = Some(tcp.sport);
    event.dport = Some(tcp.dport);
    event.tcp_seq = Some(tcp.seq);
    event.tcp_ack_seq = Some(tcp.ack_seq);
    event.tcp_window = Some(tcp.window);
    event.tcp_flags = Some(tcp.flags);
    event.tcp_doff = Some(tcp.doff);
    Ok(())
}

/// UDP section: ports and length in network order.
pub fn unmarshal_udp(raw: &RawSection, event: &mut SkbEvent) -> (r: Result<(), RetisError>)
    ensures
        raw.data@.len() != UDP_SIZE ==> r == Err::<(), RetisError>(RetisError::SectionSizeMismatch)
            && *final(event) == *old(event),
        raw.data@.len() == UDP_SIZE ==> r is Ok && udp_applied(*old(event), raw.data@, *final(event)),
{
    check_size(raw, UDP_SIZE)?;
    let d = &raw.data;
    event.sport = Some(read_be16(d, 0));
    event.dport = Some(read_be16(d, 2));
    event.udp_len = Some(read_be16(d, 4));
    Ok(())
}

/// ICMP section: type and code.
pub fn unmarshal_icmp(raw: &RawSection, event: &mut SkbEvent) -> (r: Result<(), RetisError>)
    ensures
        raw.data@.len() != ICMP_SIZE ==> r == Err::<(), RetisError>(RetisError::SectionSizeMismatch)
            && *final(event) == *old(event),
        raw.data@.len() == ICMP_SIZE ==> r is Ok && icmp_applied(*old(event), raw.data@, *final(event)),
{
    check_size(raw, ICMP_SIZE)?;
    event.icmp_type = Some(raw.data[0]);
    event.icmp_code = Some(raw.data[1]);
    Ok(())
}

/// Size the raw structure of a data type has; `None` for unknown types.
pub open spec fn section_size(data_type: u8) -> Option<nat> {
    if data_type == SECTION_L2 {
        Some(L2_SIZE as nat)
    } else if data_type == SECTION_IPV4 {
        Some(IPV4_SIZE as nat)
    } else if data_type == SECTION_IPV6 {
        Some(IPV6_SIZE as nat)
    } else if data_type == SECTION_TCP {
        Some(TCP_SIZE as nat)
    } else if data_type == SECTION_UDP {
        Some(UDP_SIZE as nat)
    } else if data_type == SECTION_ICMP {
        Some(ICMP_SIZE as nat)
    } else {
        None
    }
}

/// The first failure decoding the sections in order, if any.
pub open spec fn skb_error(secs: Seq<RawSectionView>) -> Option<RetisError>
    decreases secs.len(),
{
    if secs.len() == 0 {
        None
    } else {
        match section_size(secs[0].data_type) {
            None => Some(RetisError::UnknownDataType),
            Some(n) => if secs[0].data.len() != n {
                Some(RetisError::SectionSizeMismatch)
            } else {
                skb_error(secs.drop_first())
            },
        }
    }
}

/// Builds the skb event section from the module's raw sections, in order.
pub fn skb_from_raw(raw_sections: &Vec<RawSection>) -> (r: Result<SkbEvent, RetisError>)
    ensures
        match skb_error(raw_views(raw_sections@)) {
            Some(e) => r matches Err(re) && re == e,
            None => r matches Ok(ev) && exists|chain: Seq<SkbEvent>| #[trigger] decode_chain(
                raw_views(raw_sections@),
                chain,
            ) && chain.last() == ev,
        },
{
    let mut event = SkbEvent::empty();
    let ghost mut chain: Seq<SkbEvent> = seq![event];
    let ghost views = raw_views(raw_sections@);
    assert(views.subrange(0, views.len() as int) =~= views);
    let mut i: usize = 0;
    while i < raw_sections.len()
        invariant
            i <= raw_sections@.len(),
            views == raw_views(raw_sections@),
            skb_error(views) == skb_error(views.subrange(i as int, views.len() as int)),
            chain.len() == i + 1,
            is_empty_event(chain[0]),
            chain.last() == event,
            forall|k: int| 0 <= k < i ==> section_applied(chain[k], #[trigger] views[k], chain[k + 1]),
        decreases raw_sections.len() - i,
    {
        let ghost rest = views.subrange(i as int, views.len() as int);
        assert(rest.drop_first() =~= views.subrange(i + 1, views.len() as int));
        let section = &raw_sections[i];
        let t = section.header.data_type;
        if t == SECTION_L2 {
            unmarshal_l2(section, &mut event)?;
        } else if t == SECTION_IPV4 {
            unmarshal_ipv4(section, &mut event)?;
        } else if t == SECTION_IPV6 {
            unmarshal_ipv6(section, &mut event)?;
        } else if t == SECTION_TCP {
            unmarshal_tcp(section, &mut event)?;
        } else if t == SECTION_UDP {
            unmarshal_udp(section, &mut event)?;
        } else if t == SECTION_ICMP {
            unmarshal_icmp(section, &mut event)?;
        } else {
            return Err(RetisError::UnknownDataType);
        }
        proof {
            chain = chain.push(event);
        }
        i += 1;
    }
    assert(decode_chain(views, chain));
    Ok(event)
}

} // verus!
