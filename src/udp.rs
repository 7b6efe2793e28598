//! The UDP socket file: a connected socket that reads received datagrams
//! into the caller's buffer segments and writes each buffer as one datagram.
use vstd::prelude::*;
use crate::codec::{eth, ip, push_bytes, udp, Mac, ETH_RTYPE_IP, IP_LEN, IP_PROTOCAL_UDP, UDP_LEN};
use crate::dispatch::{frame_from, StackConfig};
use crate::error::NetError;
use crate::socket::{
    add_effect, add_socket, pop_data, pop_effect, remove_effect, remove_socket, SocketTable,
};

verus! {

/// The link-layer broadcast address; outgoing datagrams are sent to it.
pub const BROADCAST_MAC: Mac = [0xff, 0xff, 0xff, 0xff, 0xff, 0xff];

/// Version 4 with a header of five 32-bit words.
pub const IP_VHL: u8 = 0x45;
/// Time to live of outgoing packets.
pub const IP_TTL: u8 = 64;
/// The largest payload one datagram can carry.
pub const MAX_UDP_PAYLOAD: usize = 65535 - 28;

/// The sum of the 16-bit words of `h` with its checksum field taken as zero.
pub open spec fn ip_word_sum(h: ip) -> int {
    (h.vhl as int * 256 + h.tos as int) + h.len as int + h.id as int + h.off as int + (h.ttl as int
        * 256 + h.pro as int) + h.src as int / 0x1_0000 + h.src as int % 0x1_0000 + h.dst as int
        / 0x1_0000 + h.dst as int % 0x1_0000
}

/// `s` with its carries above 16 bits added back in once.
pub open spec fn fold16(s: int) -> int {
    s % 0x1_0000 + s / 0x1_0000
}

/// The Internet checksum of the header `h`: the ones' complement of the
/// ones'-complement sum of its words.
pub open spec fn ip_checksum(h: ip) -> u16 {
    (0xffff - fold16(fold16(ip_word_sum(h)))) as u16
}

/// The header checksum of `h`, its own checksum field taken as zero.
pub fn checksum(h: &ip) -> (r: u16)
    ensures
        r == ip_checksum(*h),
{
    let s: u32 = (h.vhl as u32 * 256 + h.tos as u32) + h.len as u32 + h.id as u32 + h.off as u32
        + (h.ttl as u32 * 256 + h.pro as u32) + h.src / 0x1_0000 + h.src % 0x1_0000 + h.dst
        / 0x1_0000 + h.dst % 0x1_0000;
    let f1: u32 = s % 0x1_0000 + s / 0x1_0000;
    let f2: u32 = f1 % 0x1_0000 + f1 / 0x1_0000;
    assert(f2 <= 0xffff) by (nonlinear_arith)
        requires
            s <= 10 * 0xffff,
            f1 == s % 0x1_0000 + s / 0x1_0000,
            f2 == f1 % 0x1_0000 + f1 / 0x1_0000,
    ;
    (0xffff - f2) as u16
}

/// The IPv4 header of a datagram from `src` to `dst` carrying `n` bytes of UDP.
pub open spec fn ip_header_for(src: u32, dst: u32, n: nat) -> ip {
    let h = ip {
        vhl: IP_VHL,
        tos: 0,
        len: (IP_LEN + n) as u16,
        id: 0,
        off: 0,
        ttl: IP_TTL,
        pro: IP_PROTOCAL_UDP,
        sum: 0,
        src,
        dst,
    };
    ip { sum: ip_checksum(h), ..h }
}

/// The frame carrying `payload` from the local host's port `sport` to port
/// `dport` of `target`.
pub open spec fn udp_frame(
    cfg: StackConfig,
    target: u32,
    sport: u16,
    dport: u16,
    payload: Seq<u8>,
) -> Seq<u8> {
    let n = UDP_LEN + payload.len();
    frame_from(
        cfg,
        BROADCAST_MAC,
        ETH_RTYPE_IP,
        ip_header_for(cfg.ip, target, n as nat).wire() + (udp {
            sport,
            dport,
            ulen: n as u16,
            sum: 0,
        }).wire() + payload,
    )
}

/// Builds the frame carrying `payload` from port `sport` to port `dport` of
/// `target`.
pub fn build_udp_frame(cfg: &StackConfig, target: u32, sport: u16, dport: u16, payload: &[u8]) -> (r:
    Vec<u8>)
    requires
        payload@.len() <= MAX_UDP_PAYLOAD,
    ensures
        r@ == udp_frame(*cfg, target, sport, dport, payload@),
{
    let n: usize = UDP_LEN + payload.len();
    let h0 = ip {
        vhl: IP_VHL,
        tos: 0,
        len: (IP_LEN + n) as u16,
        id: 0,
        off: 0,
        ttl: IP_TTL,
        pro: IP_PROTOCAL_UDP,
        sum: 0,
        src: cfg.ip,
        dst: target,
    };
    let h = ip { sum: checksum(&h0), ..h0 };
    let u = udp { sport, dport, ulen: n as u16, sum: 0 };
    let mut body = h.encode();
    let ub = u.encode();
    push_bytes(&mut body, ub.as_slice());
    push_bytes(&mut body, payload);
    let frame = eth { dhost: BROADCAST_MAC, shost: cfg.mac, rtype: ETH_RTYPE_IP };
    let mut out = frame.encode();
    push_bytes(&mut out, body.as_slice());
    assert(out@ =~= udp_frame(*cfg, target, sport, dport, payload@));
    out
}

/// The views of the segments of a buffer.
pub open spec fn segs(bufs: Seq<Vec<u8>>) -> Seq<Seq<u8>> {
    bufs.map_values(|b: Vec<u8>| b@)
}

/// The segments `b` laid end to end.
pub open spec fn flatten(b: Seq<Seq<u8>>) -> Seq<u8>
    decreases b.len(),
{
    if b.len() == 0 {
        Seq::empty()
    } else {
        flatten(b.drop_last()) + b.last()
    }
}

/// Where segment `k` of `b` starts in `flatten(b)`.
pub open spec fn seg_start(b: Seq<Seq<u8>>, k: int) -> int {
    flatten(b.subrange(0, k)).len() as int
}

/// `flatten` grows by one segment at a time.
pub proof fn lemma_flatten_step(b: Seq<Seq<u8>>, k: int)
    requires
        0 <= k < b.len(),
    ensures
        flatten(b.subrange(0, k + 1)) == flatten(b.subrange(0, k)) + b[k],
{
    assert(b.subrange(0, k + 1).drop_last() =~= b.subrange(0, k));
}

/// Segment `j` ends no later than where a later segment `k` starts.
pub proof fn lemma_seg_start_mono(b: Seq<Seq<u8>>, j: int, k: int)
    requires
        0 <= j < k <= b.len(),
    ensures
        seg_start(b, j) + b[j].len() <= seg_start(b, k),
    decreases k - j,
{
    lemma_flatten_step(b, k - 1);
    if j < k - 1 {
        lemma_seg_start_mono(b, j, k - 1);
    }
}

/// Gathers the segments into one vector.
pub fn gather(bufs: &Vec<Vec<u8>>) -> (r: Vec<u8>)
    ensures
        r@ == flatten(segs(bufs@)),
{
    let ghost b = segs(bufs@);
    let mut out: Vec<u8> = Vec::new();
    let mut k: usize = 0;
    while k < bufs.len()
        invariant
            b == segs(bufs@),
            k <= bufs@.len(),
            out@ == flatten(b.subrange(0, k as int)),
        decreases bufs.len() - k,
    {
        proof {
            lemma_flatten_step(b, k as int);
        }
        push_bytes(&mut out, bufs[k].as_slice());
        k = k + 1;
    }
    assert(b.subrange(0, b.len() as int) =~= b);
    out
}

/// `bufs2` is `bufs` with its leading `n` bytes, counted across the segments
/// in order, replaced by those of `data`; every segment keeps its length.
pub open spec fn filled(bufs: Seq<Seq<u8>>, bufs2: Seq<Seq<u8>>, data: Seq<u8>, n: int) -> bool {
    &&& bufs2.len() == bufs.len()
    &&& forall|k: int| 0 <= k < bufs.len() ==> #[trigger] bufs2[k].len() == bufs[k].len()
    &&& forall|k: int, p: int|
        0 <= k < bufs.len() && 0 <= p < bufs[k].len() ==> #[trigger] bufs2[k][p] == if seg_start(
            bufs,
            k,
        ) + p < n {
            data[seg_start(bufs, k) + p]
        } else {
            bufs[k][p]
        }
}

/// Copies the first `count` bytes of `data` from `from` into `seg` at 0.
fn fill_segment(seg: &mut Vec<u8>, data: &Vec<u8>, from: usize, count: usize)
    requires
        count <= old(seg)@.len(),
        from + count <= data@.len(),
    ensures
        final(seg)@.len() == old(seg)@.len(),
        forall|p: int|
            0 <= p < old(seg)@.len() ==> #[trigger] final(seg)@[p] == if p < count {
                data@[from + p]
            } else {
                old(seg)@[p]
            },
{
    let dl = data.len();
    let mut p: usize = 0;
    while p < count
        invariant
            dl == data@.len(),
            p <= count,
            count <= old(seg)@.len(),
            from + count <= data@.len(),
            seg@.len() == old(seg)@.len(),
            forall|q: int|
                0 <= q < old(seg)@.len() ==> #[trigger] seg@[q] == if q < p {
                    data@[from + q]
                } else {
                    old(seg)@[q]
                },
        decreases count - p,
    {
        seg.set(p, data[from + p]);
        p = p + 1;
    }
}

/// Copies `data` into the segments of `bufs` in order, as far as they hold
/// it, and returns how many bytes were copied; what does not fit is dropped.
pub fn copy_to_segments(data: &Vec<u8>, bufs: &mut Vec<Vec<u8>>) -> (r: usize)
    ensures
        r as int == if data@.len() < flatten(segs(old(bufs)@)).len() {
            data@.len() as int
        } else {
            flatten(segs(old(bufs)@)).len() as int
        },
        filled(segs(old(bufs)@), segs(final(bufs)@), data@, r as int),
{
    let ghost b = segs(bufs@);
    let mut left: usize = 0;
    let mut k: usize = 0;
    while k < bufs.len()
        invariant
            b == segs(old(bufs)@),
            k <= bufs@.len(),
            bufs@.len() == b.len(),
            left <= data@.len(),
            left == seg_start(b, k as int) || (left == data@.len() && left <= seg_start(
                b,
                k as int,
            )),
            forall|j: int| k <= j < b.len() ==> #[trigger] bufs@[j]@ == b[j],
            forall|j: int| 0 <= j < k ==> #[trigger] bufs@[j]@.len() == b[j].len(),
            forall|j: int, p: int|
                0 <= j < k && 0 <= p < b[j].len() ==> #[trigger] bufs@[j]@[p] == if seg_start(b, j)
                    + p < left {
                    data@[seg_start(b, j) + p]
                } else {
                    b[j][p]
                },
        decreases bufs.len() - k,
    {
        proof {
            lemma_flatten_step(b, k as int);
            assert forall|j: int| 0 <= j < k implies seg_start(b, j) + b[j].len() <= seg_start(
                b,
                k as int,
            ) by {
                lemma_seg_start_mono(b, j, k as int);
            }
        }
        let seg_len = bufs[k].len();
        let count: usize = if seg_len < data.len() - left {
            seg_len
        } else {
            data.len() - left
        };
        let mut seg: Vec<u8> = Vec::new();
        std::mem::swap(&mut seg, &mut bufs[k]);
        fill_segment(&mut seg, data, left, count);
        bufs.set(k, seg);
        left = left + count;
        k = k + 1;
    }
    assert(b.subrange(0, b.len() as int) =~= b);
    left
}

/// A connected UDP socket: remote address `target`, local port `sport`,
/// remote port `dport`, and the table slot that holds its queue.
#[derive(Debug)]
pub struct UDP {
    pub target: u32,
    pub sport: u16,
    pub dport: u16,
    pub socket_index: usize,
}

impl UDP {
    /// Connects: adds a socket with identity `(target, sport, dport)` to the
    /// table. Fails with `DuplicateSocket` where a live socket has it.
    pub fn new(table: &mut SocketTable, target: u32, sport: u16, dport: u16) -> (r: Result<
        UDP,
        NetError,
    >)
        requires
            old(table).wf(),
        ensures
            final(table).wf(),
            (
                final(table)@,
                match r {
                    Ok(u) => Ok::<usize, NetError>(u.socket_index),
                    Err(e) => Err(e),
                },
            ) == add_effect(old(table)@, (target, sport, dport)),
            r is Ok ==> r->Ok_0.target == target && r->Ok_0.sport == sport && r->Ok_0.dport
                == dport,
    {
        match add_socket(table, target, sport, dport) {
            Ok(index) => Ok(UDP { target, sport, dport, socket_index: index }),
            Err(e) => Err(e),
        }
    }

    /// A socket file can always be read.
    pub fn readable(&self) -> (r: bool)
        ensures
            r,
    {
        true
    }

    /// A socket file can always be written.
    pub fn writable(&self) -> (r: bool)
        ensures
            r,
    {
        true
    }

    /// Takes the oldest received datagram and copies it into `bufs`, segment
    /// by segment, as far as they hold it; returns how many bytes were copied,
    /// or `None`, leaving everything as it was, where nothing has arrived.
    pub fn read(&self, table: &mut SocketTable, bufs: &mut Vec<Vec<u8>>) -> (r: Option<usize>)
        requires
            old(table).wf(),
            self.socket_index < old(table)@.len(),
            old(table)@[self.socket_index as int] is Some,
        ensures
            final(table).wf(),
            final(table)@ == pop_effect(old(table)@, self.socket_index as int),
            ({
                let q = old(table)@[self.socket_index as int]->Some_0.queue;
                let total = flatten(segs(old(bufs)@)).len();
                if q.len() == 0 {
                    r is None && final(bufs)@ == old(bufs)@
                } else {
                    &&& r is Some
                    &&& r->Some_0 as int == if q[0].len() < total {
                        q[0].len() as int
                    } else {
                        total as int
                    }
                    &&& filled(segs(old(bufs)@), segs(final(bufs)@), q[0], r->Some_0 as int)
                }
            }),
    {
        match pop_data(table, self.socket_index) {
            Some(data) => Some(copy_to_segments(&data, bufs)),
            None => None,
        }
    }

    /// The frame that sends the contents of `bufs`, laid end to end, as one
    /// datagram to the remote end. Fails with `TransmitFailure` where they are
    /// more than one datagram can carry.
    pub fn write(&self, cfg: &StackConfig, bufs: &Vec<Vec<u8>>) -> (r: Result<Vec<u8>, NetError>)
        ensures
            ({
                let data = flatten(segs(bufs@));
                if data.len() <= MAX_UDP_PAYLOAD {
                    r is Ok && r->Ok_0@ == udp_frame(*cfg, self.target, self.sport, self.dport, data)
                } else {
                    r == Err::<Vec<u8>, NetError>(NetError::TransmitFailure)
                }
            }),
    {
        let data = gather(bufs);
        if data.len() > MAX_UDP_PAYLOAD {
            return Err(NetError::TransmitFailure);
        }
        Ok(build_udp_frame(cfg, self.target, self.sport, self.dport, data.as_slice()))
    }

    /// Closes the socket: its slot is cleared and its queue released.
    pub fn close(self, table: &mut SocketTable)
        requires
            old(table).wf(),
            self.socket_index < old(table)@.len(),
        ensures
            final(table).wf(),
            final(table)@ == remove_effect(old(table)@, self.socket_index as int),
    {
        remove_socket(table, self.socket_index);
    }
}

} // verus!
