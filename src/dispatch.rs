//! The receive dispatch step: one received frame is decoded layer by layer;
//! an ARP request for the local address gets a reply frame, and a UDP
//! datagram for the local address goes to the queue of its socket.
use vstd::prelude::*;
use vstd::slice::slice_to_vec;
use crate::codec::{
    arp, eth, ip, push_bytes, udp, Mac, ARP_ETHADDR_LEN, ARP_HRD_ETHER, ARP_IPADDR_LEN, ARP_LEN,
    ARP_OP_REPLY, ARP_OP_REQUEST, ETH_LEN, ETH_RTYPE_ARP, ETH_RTYPE_IP, IP_LEN, IP_PROTOCAL_UDP,
    UDP_LEN,
};
use crate::codec::{lemma_arp_round_trip, lemma_eth_round_trip};
use crate::socket::{
    find, get_socket, is_live, lemma_find_live, push_data, push_effect, SlotsView, SocketTable,
    SocketView,
};
use crate::wire::{be32, field16};
use crate::addr::ip as ip_addr;

verus! {

/// The local end of the single-host stack.
#[derive(Clone, Copy, Debug, PartialEq, Eq)]
pub struct StackConfig {
    /// Local IPv4 address.
    pub ip: u32,
    /// Local link-layer address.
    pub mac: Mac,
}

/// The local link-layer address.
pub const LOCAL_MAC: Mac = [0x52, 0x54, 0x00, 0x12, 0x34, 0x56];

/// The configuration the stack starts with: address 10.0.2.15 and `LOCAL_MAC`.
pub open spec fn local_config() -> StackConfig {
    StackConfig { ip: be32(10, 0, 2, 15) as u32, mac: LOCAL_MAC }
}

/// The state of the network subsystem: the local end and the socket table.
pub struct NetStack {
    pub config: StackConfig,
    pub sockets: SocketTable,
}

/// The network subsystem as it starts: the local configuration and no sockets.
pub fn init() -> (r: NetStack)
    ensures
        r.config == local_config(),
        r.sockets@ == Seq::<Option<SocketView>>::empty(),
        r.sockets.wf(),
{
    NetStack {
        config: StackConfig { ip: ip_addr(10, 0, 2, 15), mac: LOCAL_MAC },
        sockets: SocketTable::new(),
    }
}

/// The view of an optional byte vector.
pub open spec fn opt_bytes(r: Option<Vec<u8>>) -> Option<Seq<u8>> {
    match r {
        Some(v) => Some(v@),
        None => None,
    }
}

/// The ARP reply of `cfg` to the request `req`.
pub open spec fn arp_reply(cfg: StackConfig, req: arp) -> arp {
    arp {
        httype: ARP_HRD_ETHER,
        pttype: ETH_RTYPE_IP,
        hlen: ARP_ETHADDR_LEN,
        plen: ARP_IPADDR_LEN,
        op: ARP_OP_REPLY,
        sha: cfg.mac,
        spa: cfg.ip,
        tha: req.sha,
        tpa: req.spa,
    }
}

/// A frame from `cfg` to `dhost` with type `rtype` carrying `payload`.
pub open spec fn frame_from(cfg: StackConfig, dhost: Mac, rtype: u16, payload: Seq<u8>) -> Seq<u8> {
    eth { dhost, shost: cfg.mac, rtype }.wire() + payload
}

/// The frame answering the ARP packet `p`, if any: only a request whose
/// target is the local address gets one.
pub open spec fn arp_response(cfg: StackConfig, p: Seq<u8>) -> Option<Seq<u8>> {
    if p.len() < ARP_LEN {
        None
    } else {
        let a = arp::parse(p);
        if a.op == ARP_OP_REQUEST && a.tpa == cfg.ip {
            Some(frame_from(cfg, a.sha, ETH_RTYPE_ARP, arp_reply(cfg, a).wire()))
        } else {
            None
        }
    }
}

/// Where the payload of the UDP datagram `u` ends: at its declared length,
/// cut to the bytes that are there.
pub open spec fn udp_end(u: Seq<u8>) -> int {
    let ulen = field16(u, 4) as int;
    if ulen < UDP_LEN {
        UDP_LEN as int
    } else if ulen > u.len() {
        u.len() as int
    } else {
        ulen
    }
}

/// The payload of the UDP datagram `u`.
pub open spec fn udp_payload(u: Seq<u8>) -> Seq<u8> {
    u.subrange(UDP_LEN as int, udp_end(u))
}

/// The socket key a UDP datagram `u` from `src` is delivered to.
pub open spec fn udp_key(src: u32, u: Seq<u8>) -> (u32, u16, u16) {
    (src, udp::parse(u).dport, udp::parse(u).sport)
}

/// The table after delivering the UDP datagram `u` from `src`.
pub open spec fn udp_effect(t: SlotsView, src: u32, u: Seq<u8>) -> SlotsView {
    if u.len() < UDP_LEN {
        t
    } else {
        match find(t, udp_key(src, u)) {
            Some(i) => push_effect(t, i, udp_payload(u)),
            None => t,
        }
    }
}

/// The table after handling the IPv4 packet `p`; its checksum plays no part.
pub open spec fn ip_effect(cfg: StackConfig, t: SlotsView, p: Seq<u8>) -> SlotsView {
    if p.len() < IP_LEN {
        t
    } else {
        let h = ip::parse(p);
        if h.dst == cfg.ip && h.pro == IP_PROTOCAL_UDP {
            udp_effect(t, h.src, p.subrange(IP_LEN as int, p.len() as int))
        } else {
            t
        }
    }
}

/// The table after handling the frame `f`, and the frame to send in reply.
pub open spec fn rx_effect(cfg: StackConfig, t: SlotsView, f: Seq<u8>) -> (SlotsView, Option<Seq<u8>>) {
    if f.len() < ETH_LEN {
        (t, None)
    } else {
        let e = eth::parse(f);
        let p = f.subrange(ETH_LEN as int, f.len() as int);
        if e.rtype == ETH_RTYPE_ARP {
            (t, arp_response(cfg, p))
        } else if e.rtype == ETH_RTYPE_IP {
            (ip_effect(cfg, t, p), None)
        } else {
            (t, None)
        }
    }
}

/// A frame from the local host to `dhost` with type `rtype` carrying `payload`.
pub fn eth_transmite(cfg: &StackConfig, dhost: &Mac, rtype: u16, payload: &[u8]) -> (r: Vec<u8>)
    ensures
        r@ == frame_from(*cfg, *dhost, rtype, payload@),
{
    let header = eth { dhost: *dhost, shost: cfg.mac, rtype };
    let mut out = header.encode();
    push_bytes(&mut out, payload);
    out
}

/// An ARP frame with operation `op` from the local host to the host with
/// link-layer address `dmac` and IPv4 address `dip`.
pub fn arp_tramsmit(cfg: &StackConfig, op: u16, dmac: &Mac, dip: u32) -> (r: Vec<u8>)
    ensures
        r@ == frame_from(
            *cfg,
            *dmac,
            ETH_RTYPE_ARP,
            (arp {
                httype: ARP_HRD_ETHER,
                pttype: ETH_RTYPE_IP,
                hlen: ARP_ETHADDR_LEN,
                plen: ARP_IPADDR_LEN,
                op,
                sha: cfg.mac,
                spa: cfg.ip,
                tha: *dmac,
                tpa: dip,
            }).wire(),
        ),
{
    let packet = arp {
        httype: ARP_HRD_ETHER,
        pttype: ETH_RTYPE_IP,
        hlen: ARP_ETHADDR_LEN,
        plen: ARP_IPADDR_LEN,
        op,
        sha: cfg.mac,
        spa: cfg.ip,
        tha: *dmac,
        tpa: dip,
    };
    let bytes = packet.encode();
    eth_transmite(cfg, dmac, ETH_RTYPE_ARP, bytes.as_slice())
}

/// Handles the ARP packet `data`: the reply frame for a request aimed at the
/// local address, else nothing.
pub fn handle_arp_receive(cfg: &StackConfig, data: &[u8]) -> (r: Option<Vec<u8>>)
    ensures
        opt_bytes(r) == arp_response(*cfg, data@),
{
    match arp::decode(data) {
        Ok(a) => {
            if a.op == ARP_OP_REQUEST && a.tpa == cfg.ip {
                Some(arp_tramsmit(cfg, ARP_OP_REPLY, &a.sha, a.spa))
            } else {
                None
            }
        },
        Err(_) => None,
    }
}

/// Handles the UDP datagram `data` from `src`: its payload goes to the queue
/// of the live socket keyed by (`src`, destination port, source port); with
/// no such socket it is dropped.
pub fn handle_udp_receive(table: &mut SocketTable, src: u32, data: &[u8])
    requires
        old(table).wf(),
    ensures
        final(table).wf(),
        final(table)@ == udp_effect(old(table)@, src, data@),
{
    match udp::decode(data) {
        Ok(h) => {
            let ulen = h.ulen as usize;
            let end: usize = if ulen < UDP_LEN {
                UDP_LEN
            } else if ulen > data.len() {
                data.len()
            } else {
                ulen
            };
            match get_socket(table, src, h.dport, h.sport) {
                Some(index) => {
                    proof {
                        lemma_find_live(table@, (src, h.dport, h.sport));
                    }
                    let payload = slice_to_vec(&data[UDP_LEN..end]);
                    push_data(table, index, payload);
                },
                None => {},
            }
        },
        Err(_) => {},
    }
}

/// Handles the IPv4 packet `data`: a UDP datagram for the local address is
/// delivered; anything else is dropped. The header checksum is not checked,
/// so a packet with a wrong one is still delivered.
pub fn handle_ip_receive(cfg: &StackConfig, table: &mut SocketTable, data: &[u8])
    requires
        old(table).wf(),
    ensures
        final(table).wf(),
        final(table)@ == ip_effect(*cfg, old(table)@, data@),
{
    match ip::decode(data) {
        Ok(h) => {
            if h.dst == cfg.ip && h.pro == IP_PROTOCAL_UDP {
                handle_udp_receive(table, h.src, &data[IP_LEN..data.len()]);
            }
        },
        Err(_) => {},
    }
}

/// Handles one received frame; returns the frame to send in reply, if any.
pub fn handle_eth_receive(cfg: &StackConfig, table: &mut SocketTable, frame: &[u8]) -> (r: Option<
    Vec<u8>,
>)
    requires
        old(table).wf(),
    ensures
        final(table).wf(),
        (final(table)@, opt_bytes(r)) == rx_effect(*cfg, old(table)@, frame@),
{
    match eth::decode(frame) {
        Ok(h) => {
            let payload = &frame[ETH_LEN..frame.len()];
            if h.rtype == ETH_RTYPE_ARP {
                handle_arp_receive(cfg, payload)
            } else if h.rtype == ETH_RTYPE_IP {
                handle_ip_receive(cfg, table, payload);
                None
            } else {
                None
            }
        },
        Err(_) => None,
    }
}

/// An ARP request aimed at the local address gets exactly one reply frame,
/// addressed to the requester, whose ARP packet is a reply with the local
/// host as sender and the requester as target; the socket table is left as
/// it was.
pub proof fn lemma_arp_request_reply(cfg: StackConfig, t: SlotsView, f: Seq<u8>)
    requires
        f.len() >= ETH_LEN + ARP_LEN,
        eth::parse(f).rtype == ETH_RTYPE_ARP,
        arp::parse(f.subrange(ETH_LEN as int, f.len() as int)).op == ARP_OP_REQUEST,
        arp::parse(f.subrange(ETH_LEN as int, f.len() as int)).tpa == cfg.ip,
    ensures
        ({
            let req = arp::parse(f.subrange(ETH_LEN as int, f.len() as int));
            let (t2, reply) = rx_effect(cfg, t, f);
            let r = reply->Some_0;
            let rep = arp::parse(r.subrange(ETH_LEN as int, r.len() as int));
            &&& t2 == t
            &&& reply is Some
            &&& r.len() == ETH_LEN + ARP_LEN
            &&& eth::parse(r) == (eth { dhost: req.sha, shost: cfg.mac, rtype: ETH_RTYPE_ARP })
            &&& rep.op == ARP_OP_REPLY
            &&& rep.sha == cfg.mac && rep.spa == cfg.ip
            &&& rep.tha == req.sha && rep.tpa == req.spa
            &&& rep == arp_reply(cfg, req)
        }),
{
    let req = arp::parse(f.subrange(ETH_LEN as int, f.len() as int));
    let e = eth { dhost: req.sha, shost: cfg.mac, rtype: ETH_RTYPE_ARP };
    let a = arp_reply(cfg, req);
    let r = e.wire() + a.wire();
    lemma_eth_round_trip(e);
    lemma_arp_round_trip(a);
    assert(r.subrange(ETH_LEN as int, r.len() as int) =~= a.wire());
    assert(r.subrange(0, ETH_LEN as int) =~= e.wire());
    assert(eth::parse(r).dhost =~= eth::parse(e.wire()).dhost);
    assert(eth::parse(r).shost =~= eth::parse(e.wire()).shost);
    assert(eth::parse(r).rtype == eth::parse(e.wire()).rtype);
}

/// A UDP datagram whose key matches no live socket leaves every socket queue
/// as it was.
pub proof fn lemma_unregistered_datagram(cfg: StackConfig, t: SlotsView, f: Seq<u8>)
    requires
        f.len() >= ETH_LEN + IP_LEN + UDP_LEN,
        eth::parse(f).rtype == ETH_RTYPE_IP,
        ip::parse(f.subrange(ETH_LEN as int, f.len() as int)).pro == IP_PROTOCAL_UDP,
        !is_live(
            t,
            udp_key(
                ip::parse(f.subrange(ETH_LEN as int, f.len() as int)).src,
                f.subrange(ETH_LEN + IP_LEN, f.len() as int),
            ),
        ),
    ensures
        rx_effect(cfg, t, f).0 == t,
{
    let p = f.subrange(ETH_LEN as int, f.len() as int);
    assert(p.subrange(IP_LEN as int, p.len() as int) =~= f.subrange(ETH_LEN + IP_LEN, f.len() as int));
    lemma_find_live(t, udp_key(ip::parse(p).src, p.subrange(IP_LEN as int, p.len() as int)));
}

} // verus!
