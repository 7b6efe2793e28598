//! Encoding and decoding of the Ethernet, ARP, IPv4 and UDP headers.
//!
//! Every multi-byte integer field is big-endian on the wire. Each header has
//! a spec function giving its wire bytes and one reading a header back from
//! bytes; the executable functions match them exactly.
#![allow(non_camel_case_types)]

use vstd::prelude::*;
use crate::error::NetError;
use crate::wire::{
    be16_bytes, be32_bytes, field16, field32, lemma_be16_round_trip, lemma_be32_round_trip,
    push_be16, push_be32, read_be16, read_be32,
};

verus! {

/// A link-layer (MAC) address.
pub type Mac = [u8; 6];

/// Wire size of an Ethernet header.
pub const ETH_LEN: usize = 14;
/// Wire size of an ARP packet for IPv4 over Ethernet.
pub const ARP_LEN: usize = 28;
/// Wire size of an IPv4 header without options.
pub const IP_LEN: usize = 20;
/// Wire size of a UDP header.
pub const UDP_LEN: usize = 8;

/// Ethertype of an IPv4 payload.
pub const ETH_RTYPE_IP: u16 = 0x0800;
/// Ethertype of an ARP payload.
pub const ETH_RTYPE_ARP: u16 = 0x0806;

/// ARP hardware type of Ethernet.
pub const ARP_HRD_ETHER: u16 = 1;
/// ARP hardware address length of Ethernet.
pub const ARP_ETHADDR_LEN: u8 = 6;
/// ARP protocol address length of IPv4.
pub const ARP_IPADDR_LEN: u8 = 4;
/// ARP operation: request.
pub const ARP_OP_REQUEST: u16 = 1;
/// ARP operation: reply.
pub const ARP_OP_REPLY: u16 = 2;

/// IPv4 protocol numbers.
pub const IP_PROTOCAL_ICMP: u8 = 1;
pub const IP_PROTOCAL_IGMP: u8 = 2;
pub const IP_PROTOCAL_TCP: u8 = 6;
pub const IP_PROTOCAL_UDP: u8 = 17;

/// The six bytes at `at` in `b`, as a MAC.
pub open spec fn mac_at(b: Seq<u8>, at: int) -> Mac {
    [b[at], b[at + 1], b[at + 2], b[at + 3], b[at + 4], b[at + 5]]
}

/// Reads the MAC at `at`.
pub fn read_mac(b: &[u8], at: usize) -> (r: Mac)
    requires
        at + 6 <= b@.len(),
    ensures
        r == mac_at(b@, at as int),
{
    [b[at], b[at + 1], b[at + 2], b[at + 3], b[at + 4], b[at + 5]]
}

/// Appends the six bytes of `m`.
pub fn push_mac(out: &mut Vec<u8>, m: &Mac)
    ensures
        final(out)@ == old(out)@ + m@,
{
    let mut i: usize = 0;
    while i < 6
        invariant
            i <= 6,
            out@ == old(out)@ + m@.subrange(0, i as int),
        decreases 6 - i,
    {
        out.push(m[i]);
        i = i + 1;
        assert(out@ =~= old(out)@ + m@.subrange(0, i as int));
    }
    assert(m@.subrange(0, 6) =~= m@);
}

/// Appends the bytes of `src`.
pub fn push_bytes(out: &mut Vec<u8>, src: &[u8])
    ensures
        final(out)@ == old(out)@ + src@,
{
    let mut i: usize = 0;
    while i < src.len()
        invariant
            i <= src@.len(),
            out@ == old(out)@ + src@.subrange(0, i as int),
        decreases src.len() - i,
    {
        out.push(src[i]);
        i = i + 1;
        assert(out@ =~= old(out)@ + src@.subrange(0, i as int));
    }
    assert(src@.subrange(0, src@.len() as int) =~= src@);
}

/// An Ethernet header.
#[derive(Clone, Copy, Debug, PartialEq, Eq)]
pub struct eth {
    /// Destination host.
    pub dhost: Mac,
    /// Source host.
    pub shost: Mac,
    /// Type of the payload: ARP or IPv4.
    pub rtype: u16,
}

impl eth {
    /// The wire bytes of this header.
    pub open spec fn wire(self) -> Seq<u8> {
        self.dhost@ + self.shost@ + be16_bytes(self.rtype)
    }

    /// The header held by the first bytes of `b`.
    pub open spec fn parse(b: Seq<u8>) -> eth {
        eth { dhost: mac_at(b, 0), shost: mac_at(b, 6), rtype: field16(b, 12) }
    }

    /// Reads the header at the start of `b`.
    pub fn decode(b: &[u8]) -> (r: Result<eth, NetError>)
        ensures
            b@.len() >= ETH_LEN ==> r == Ok::<eth, NetError>(eth::parse(b@)),
            b@.len() < ETH_LEN ==> r == Err::<eth, NetError>(NetError::ProtocolTruncated),
    {
        if b.len() < ETH_LEN {
            return Err(NetError::ProtocolTruncated);
        }
        Ok(eth { dhost: read_mac(b, 0), shost: read_mac(b, 6), rtype: read_be16(b, 12) })
    }

    /// Writes the header's wire bytes.
    pub fn encode(&self) -> (r: Vec<u8>)
        ensures
            r@ == self.wire(),
            r@.len() == ETH_LEN,
    {
        let mut out: Vec<u8> = Vec::new();
        push_mac(&mut out, &self.dhost);
        push_mac(&mut out, &self.shost);
        push_be16(&mut out, self.rtype);
        out
    }
}

/// An ARP packet for IPv4 over Ethernet.
#[derive(Clone, Copy, Debug, PartialEq, Eq)]
pub struct arp {
    /// Hardware type.
    pub httype: u16,
    /// Protocol type; IPv4 is 0x0800.
    pub pttype: u16,
    /// Hardware address length.
    pub hlen: u8,
    /// Protocol address length.
    pub plen: u8,
    /// Operation: 1 for request, 2 for reply.
    pub op: u16,
    /// Sender hardware address.
    pub sha: Mac,
    /// Sender protocol address.
    pub spa: u32,
    /// Target hardware address.
    pub tha: Mac,
    /// Target protocol address.
    pub tpa: u32,
}

impl arp {
    /// The wire bytes of this packet.
    pub open spec fn wire(self) -> Seq<u8> {
        be16_bytes(self.httype) + be16_bytes(self.pttype) + seq![self.hlen, self.plen]
            + be16_bytes(self.op) + self.sha@ + be32_bytes(self.spa) + self.tha@ + be32_bytes(
            self.tpa,
        )
    }

    /// The packet held by the first bytes of `b`.
    pub open spec fn parse(b: Seq<u8>) -> arp {
        arp {
            httype: field16(b, 0),
            pttype: field16(b, 2),
            hlen: b[4],
            plen: b[5],
            op: field16(b, 6),
            sha: mac_at(b, 8),
            spa: field32(b, 14),
            tha: mac_at(b, 18),
            tpa: field32(b, 24),
        }
    }

    /// Reads the packet at the start of `b`.
    pub fn decode(b: &[u8]) -> (r: Result<arp, NetError>)
        ensures
            b@.len() >= ARP_LEN ==> r == Ok::<arp, NetError>(arp::parse(b@)),
            b@.len() < ARP_LEN ==> r == Err::<arp, NetError>(NetError::ProtocolTruncated),
    {
        if b.len() < ARP_LEN {
            return Err(NetError::ProtocolTruncated);
        }
        Ok(
            arp {
                httype: read_be16(b, 0),
                pttype: read_be16(b, 2),
                hlen: b[4],
                plen: b[5],
                op: read_be16(b, 6),
                sha: read_mac(b, 8),
                spa: read_be32(b, 14),
                tha: read_mac(b, 18),
                tpa: read_be32(b, 24),
            },
        )
    }

    /// Writes the packet's wire bytes.
    pub fn encode(&self) -> (r: Vec<u8>)
        ensures
            r@ == self.wire(),
            r@.len() == ARP_LEN,
    {
        let mut out: Vec<u8> = Vec::new();
        push_be16(&mut out, self.httype);
        push_be16(&mut out, self.pttype);
        out.push(self.hlen);
        out.push(self.plen);
        push_be16(&mut out, self.op);
        push_mac(&mut out, &self.sha);
        push_be32(&mut out, self.spa);
        push_mac(&mut out, &self.tha);
        push_be32(&mut out, self.tpa);
        assert(out@ =~= self.wire());
        out
    }
}

/// An IPv4 header without options.
#[derive(Clone, Copy, Debug, PartialEq, Eq)]
pub struct ip {
    /// Version in the high nibble, header length in words in the low one.
    pub vhl: u8,
    /// Type of service.
    pub tos: u8,
    /// Total length of the packet.
    pub len: u16,
    /// Identification.
    pub id: u16,
    /// Flags and fragment offset.
    pub off: u16,
    /// Time to live.
    pub ttl: u8,
    /// Protocol of the payload: ICMP 1, IGMP 2, TCP 6, UDP 17.
    pub pro: u8,
    /// Header checksum.
    pub sum: u16,
    /// Source address.
    pub src: u32,
    /// Destination address.
    pub dst: u32,
}

impl ip {
    /// The wire bytes of this header.
    pub open spec fn wire(self) -> Seq<u8> {
        seq![self.vhl, self.tos] + be16_bytes(self.len) + be16_bytes(self.id) + be16_bytes(
            self.off,
        ) + seq![self.ttl, self.pro] + be16_bytes(self.sum) + be32_bytes(self.src) + be32_bytes(
            self.dst,
        )
    }

    /// The header held by the first bytes of `b`.
    pub open spec fn parse(b: Seq<u8>) -> ip {
        ip {
            vhl: b[0],
            tos: b[1],
            len: field16(b, 2),
            id: field16(b, 4),
            off: field16(b, 6),
            ttl: b[8],
            pro: b[9],
            sum: field16(b, 10),
            src: field32(b, 12),
            dst: field32(b, 16),
        }
    }

    /// Reads the header at the start of `b`.
    pub fn decode(b: &[u8]) -> (r: Result<ip, NetError>)
        ensures
            b@.len() >= IP_LEN ==> r == Ok::<ip, NetError>(ip::parse(b@)),
            b@.len() < IP_LEN ==> r == Err::<ip, NetError>(NetError::ProtocolTruncated),
    {
        if b.len() < IP_LEN {
            return Err(NetError::ProtocolTruncated);
        }
        Ok(
            ip {
                vhl: b[0],
                tos: b[1],
                len: read_be16(b, 2),
                id: read_be16(b, 4),
                off: read_be16(b, 6),
                ttl: b[8],
                pro: b[9],
                sum: read_be16(b, 10),
                src: read_be32(b, 12),
                dst: read_be32(b, 16),
            },
        )
    }

    /// Writes the header's wire bytes.
    pub fn encode(&self) -> (r: Vec<u8>)
        ensures
            r@ == self.wire(),
            r@.len() == IP_LEN,
    {
        let mut out: Vec<u8> = Vec::new();
        out.push(self.vhl);
        out.push(self.tos);
        push_be16(&mut out, self.len);
        push_be16(&mut out, self.id);
        push_be16(&mut out, self.off);
        out.push(self.ttl);
        out.push(self.pro);
        push_be16(&mut out, self.sum);
        push_be32(&mut out, self.src);
        push_be32(&mut out, self.dst);
        assert(out@ =~= self.wire());
        out
    }
}

/// A UDP header.
#[derive(Clone, Copy, Debug, PartialEq, Eq)]
pub struct udp {
    /// Source port.
    pub sport: u16,
    /// Destination port.
    pub dport: u16,
    /// Length of header and payload.
    pub ulen: u16,
    /// Checksum.
    pub sum: u16,
}

impl udp {
    /// The wire bytes of this header.
    pub open spec fn wire(self) -> Seq<u8> {
        be16_bytes(self.sport) + be16_bytes(self.dport) + be16_bytes(self.ulen) + be16_bytes(
            self.sum,
        )
    }

    /// The header held by the first bytes of `b`.
    pub open spec fn parse(b: Seq<u8>) -> udp {
        udp { sport: field16(b, 0), dport: field16(b, 2), ulen: field16(b, 4), sum: field16(b, 6) }
    }

    /// Reads the header at the start of `b`.
    pub fn decode(b: &[u8]) -> (r: Result<udp, NetError>)
        ensures
            b@.len() >= UDP_LEN ==> r == Ok::<udp, NetError>(udp::parse(b@)),
            b@.len() < UDP_LEN ==> r == Err::<udp, NetError>(NetError::ProtocolTruncated),
    {
        if b.len() < UDP_LEN {
            return Err(NetError::ProtocolTruncated);
        }
        Ok(
            udp {
                sport: read_be16(b, 0),
                dport: read_be16(b, 2),
                ulen: read_be16(b, 4),
                sum: read_be16(b, 6),
            },
        )
    }

    /// Writes the header's wire bytes.
    pub fn encode(&self) -> (r: Vec<u8>)
        ensures
            r@ == self.wire(),
            r@.len() == UDP_LEN,
    {
        let mut out: Vec<u8> = Vec::new();
        push_be16(&mut out, self.sport);
        push_be16(&mut out, self.dport);
        push_be16(&mut out, self.ulen);
        push_be16(&mut out, self.sum);
        assert(out@ =~= self.wire());
        out
    }
}

/// Reading an Ethernet header back from its wire bytes gives the header.
pub proof fn lemma_eth_round_trip(h: eth)
    ensures
        h.wire().len() == ETH_LEN,
        eth::parse(h.wire()) == h,
{
    let w = h.wire();
    lemma_be16_round_trip(h.rtype);
    assert(w[12] == be16_bytes(h.rtype)[0] && w[13] == be16_bytes(h.rtype)[1]);
    assert(mac_at(w, 0) =~= h.dhost);
    assert(mac_at(w, 6) =~= h.shost);
}

/// Reading an ARP packet back from its wire bytes gives the packet.
pub proof fn lemma_arp_round_trip(a: arp)
    ensures
        a.wire().len() == ARP_LEN,
        arp::parse(a.wire()) == a,
{
    let w = a.wire();
    lemma_be16_round_trip(a.httype);
    lemma_be16_round_trip(a.pttype);
    lemma_be16_round_trip(a.op);
    lemma_be32_round_trip(a.spa);
    lemma_be32_round_trip(a.tpa);
    assert(w.subrange(0, 2) =~= be16_bytes(a.httype));
    assert(w.subrange(2, 4) =~= be16_bytes(a.pttype));
    assert(w.subrange(6, 8) =~= be16_bytes(a.op));
    assert(w.subrange(14, 18) =~= be32_bytes(a.spa));
    assert(w.subrange(24, 28) =~= be32_bytes(a.tpa));
    assert(mac_at(w, 8) =~= a.sha);
    assert(mac_at(w, 18) =~= a.tha);
}

/// Reading an IPv4 header back from its wire bytes gives the header.
pub proof fn lemma_ip_round_trip(h: ip)
    ensures
        h.wire().len() == IP_LEN,
        ip::parse(h.wire()) == h,
{
    let w = h.wire();
    lemma_be16_round_trip(h.len);
    lemma_be16_round_trip(h.id);
    lemma_be16_round_trip(h.off);
    lemma_be16_round_trip(h.sum);
    lemma_be32_round_trip(h.src);
    lemma_be32_round_trip(h.dst);
    assert(w.subrange(2, 4) =~= be16_bytes(h.len));
    assert(w.subrange(4, 6) =~= be16_bytes(h.id));
    assert(w.subrange(6, 8) =~= be16_bytes(h.off));
    assert(w.subrange(10, 12) =~= be16_bytes(h.sum));
    assert(w.subrange(12, 16) =~= be32_bytes(h.src));
    assert(w.subrange(16, 20) =~= be32_bytes(h.dst));
}

/// Reading a UDP header back from its wire bytes gives the header.
pub proof fn lemma_udp_round_trip(h: udp)
    ensures
        h.wire().len() == UDP_LEN,
        udp::parse(h.wire()) == h,
{
    let w = h.wire();
    lemma_be16_round_trip(h.sport);
    lemma_be16_round_trip(h.dport);
    lemma_be16_round_trip(h.ulen);
    lemma_be16_round_trip(h.sum);
    assert(w.subrange(0, 2) =~= be16_bytes(h.sport));
    assert(w.subrange(2, 4) =~= be16_bytes(h.dport));
    assert(w.subrange(4, 6) =~= be16_bytes(h.ulen));
    assert(w.subrange(6, 8) =~= be16_bytes(h.sum));
}

} // verus!
