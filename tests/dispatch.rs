use rcore_net::addr::ip;
use rcore_net::codec::{arp, eth, ARP_LEN, ETH_LEN};
use rcore_net::dispatch::{
    arp_tramsmit, eth_transmite, handle_arp_receive, handle_eth_receive, handle_ip_receive,
    handle_udp_receive, init,
    LOCAL_MAC,
};
use rcore_net::socket::{add_socket, pop_data};

const PEER_MAC: [u8; 6] = [0x52, 0x55, 0x0a, 0x00, 0x02, 0x02];

fn arp_request_frame(target_ip: [u8; 4], op: u8) -> Vec<u8> {
    let mut f = vec![
        0xff, 0xff, 0xff, 0xff, 0xff, 0xff, 0x52, 0x55, 0x0a, 0x00, 0x02, 0x02, 0x08, 0x06, 0x00,
        0x01, 0x08, 0x00, 0x06, 0x04, 0x00, op, 0x52, 0x55, 0x0a, 0x00, 0x02, 0x02, 0x0a, 0x00,
        0x02, 0x02, 0x00, 0x00, 0x00, 0x00, 0x00, 0x00,
    ];
    f.extend_from_slice(&target_ip);
    f
}

fn ping_frame(dport: [u8; 2], payload: &[u8], ulen: u16) -> Vec<u8> {
    let mut f = vec![
        0x52, 0x54, 0x00, 0x12, 0x34, 0x56, 0x52, 0x55, 0x0a, 0x00, 0x02, 0x02, 0x08, 0x00, 0x45,
        0x00, 0x00, 0x2b, 0x00, 0x03, 0x00, 0x00, 0x40, 0x11, 0x62, 0xaf, 0x0a, 0x00, 0x02, 0x02,
        0x0a, 0x00, 0x02, 0x0f, 0xd8, 0x67, dport[0], dport[1],
    ];
    f.extend_from_slice(&ulen.to_be_bytes());
    f.extend_from_slice(&[0x35, 0x21]);
    f.extend_from_slice(payload);
    f
}

#[test]
fn init_has_local_address_and_no_sockets() {
    let s = init();
    assert_eq!(s.config.ip, ip(10, 0, 2, 15));
    assert_eq!(s.config.mac, LOCAL_MAC);
    assert_eq!(s.sockets.len(), 0);
}

#[test]
fn arp_request_for_local_ip_gets_one_reply() {
    let mut s = init();
    let req = arp_request_frame([10, 0, 2, 15], 1);
    let reply = handle_eth_receive(&s.config, &mut s.sockets, &req).unwrap();
    let expected = vec![
        0x52, 0x55, 0x0a, 0x00, 0x02, 0x02, 0x52, 0x54, 0x00, 0x12, 0x34, 0x56, 0x08, 0x06, 0x00,
        0x01, 0x08, 0x00, 0x06, 0x04, 0x00, 0x02, 0x52, 0x54, 0x00, 0x12, 0x34, 0x56, 0x0a, 0x00,
        0x02, 0x0f, 0x52, 0x55, 0x0a, 0x00, 0x02, 0x02, 0x0a, 0x00, 0x02, 0x02,
    ];
    assert_eq!(reply, expected);
    let e = eth::decode(&reply).unwrap();
    assert_eq!(e.dhost, PEER_MAC);
    assert_eq!(e.rtype, 0x0806);
    let a = arp::decode(&reply[ETH_LEN..]).unwrap();
    assert_eq!(a.op, 2);
    assert_eq!((a.sha, a.spa), (LOCAL_MAC, ip(10, 0, 2, 15)));
    assert_eq!((a.tha, a.tpa), (PEER_MAC, ip(10, 0, 2, 2)));
    assert_eq!(s.sockets.len(), 0);
}

#[test]
fn arp_request_for_other_ip_is_ignored() {
    let mut s = init();
    let req = arp_request_frame([10, 0, 2, 16], 1);
    assert_eq!(handle_eth_receive(&s.config, &mut s.sockets, &req), None);
}

#[test]
fn arp_reply_gets_no_answer() {
    let s = init();
    let frame = arp_request_frame([10, 0, 2, 15], 2);
    assert_eq!(handle_arp_receive(&s.config, &frame[ETH_LEN..]), None);
}

#[test]
fn truncated_arp_gets_no_answer() {
    let s = init();
    let frame = arp_request_frame([10, 0, 2, 15], 1);
    assert_eq!(handle_arp_receive(&s.config, &frame[ETH_LEN..ETH_LEN + ARP_LEN - 1]), None);
}

#[test]
fn udp_datagram_reaches_its_socket() {
    let mut s = init();
    let slot = add_socket(&mut s.sockets, ip(10, 0, 2, 2), 2000, 55399).unwrap();
    let f = ping_frame([0x07, 0xd0], b"this is a ping!", 23);
    assert_eq!(handle_eth_receive(&s.config, &mut s.sockets, &f), None);
    assert_eq!(pop_data(&mut s.sockets, slot), Some(b"this is a ping!".to_vec()));
    assert_eq!(pop_data(&mut s.sockets, slot), None);
}

#[test]
fn unregistered_datagram_changes_no_queue() {
    let mut s = init();
    let a = add_socket(&mut s.sockets, ip(10, 0, 2, 2), 2000, 26099).unwrap();
    let b = add_socket(&mut s.sockets, ip(10, 0, 2, 2), 2001, 55399).unwrap();
    let f = ping_frame([0x07, 0xd0], b"this is a ping!", 23);
    assert_eq!(handle_eth_receive(&s.config, &mut s.sockets, &f), None);
    assert_eq!(s.sockets.queued(a), 0);
    assert_eq!(s.sockets.queued(b), 0);
}

#[test]
fn datagram_for_other_host_is_dropped() {
    let mut s = init();
    s.config.ip = ip(10, 0, 2, 99);
    let slot = add_socket(&mut s.sockets, ip(10, 0, 2, 2), 2000, 55399).unwrap();
    let f = ping_frame([0x07, 0xd0], b"this is a ping!", 23);
    handle_eth_receive(&s.config, &mut s.sockets, &f);
    assert_eq!(s.sockets.queued(slot), 0);
}

#[test]
fn payload_is_cut_to_declared_length() {
    let mut t = init().sockets;
    let slot = add_socket(&mut t, 7, 2000, 55399).unwrap();
    let f = ping_frame([0x07, 0xd0], b"this is a ping!", 12);
    handle_udp_receive(&mut t, 7, &f[34..]);
    assert_eq!(pop_data(&mut t, slot), Some(b"this".to_vec()));
}

#[test]
fn declared_length_beyond_data_keeps_what_is_there() {
    let mut t = init().sockets;
    let slot = add_socket(&mut t, 7, 2000, 55399).unwrap();
    let f = ping_frame([0x07, 0xd0], b"abc", 100);
    handle_udp_receive(&mut t, 7, &f[34..]);
    assert_eq!(pop_data(&mut t, slot), Some(b"abc".to_vec()));
}

#[test]
fn declared_length_below_header_gives_empty_payload() {
    let mut t = init().sockets;
    let slot = add_socket(&mut t, 7, 2000, 55399).unwrap();
    let f = ping_frame([0x07, 0xd0], b"abc", 3);
    handle_udp_receive(&mut t, 7, &f[34..]);
    assert_eq!(pop_data(&mut t, slot), Some(vec![]));
}

#[test]
fn unknown_ethertype_and_short_frames_are_dropped() {
    let mut s = init();
    let slot = add_socket(&mut s.sockets, ip(10, 0, 2, 2), 2000, 55399).unwrap();
    let mut f = ping_frame([0x07, 0xd0], b"x", 9);
    f[12] = 0x86;
    f[13] = 0xdd;
    assert_eq!(handle_eth_receive(&s.config, &mut s.sockets, &f), None);
    assert_eq!(handle_eth_receive(&s.config, &mut s.sockets, &f[..10]), None);
    assert_eq!(s.sockets.queued(slot), 0);
}

#[test]
fn eth_transmite_prefixes_header() {
    let s = init();
    let f = eth_transmite(&s.config, &[0xff; 6], 0x0800, &[9, 8, 7]);
    assert_eq!(
        f,
        vec![0xff, 0xff, 0xff, 0xff, 0xff, 0xff, 0x52, 0x54, 0x00, 0x12, 0x34, 0x56, 0x08, 0x00, 9, 8, 7]
    );
}

#[test]
fn arp_tramsmit_builds_full_frame() {
    let s = init();
    let f = arp_tramsmit(&s.config, 1, &PEER_MAC, ip(10, 0, 2, 2));
    assert_eq!(f.len(), ETH_LEN + ARP_LEN);
    let a = arp::decode(&f[ETH_LEN..]).unwrap();
    assert_eq!(a.op, 1);
    assert_eq!(a.tha, PEER_MAC);
    assert_eq!(a.tpa, ip(10, 0, 2, 2));
    assert_eq!(a.spa, ip(10, 0, 2, 15));
}

#[test]
fn bad_ip_checksum_is_still_delivered() {
    let mut s = init();
    let slot = add_socket(&mut s.sockets, ip(10, 0, 2, 2), 2000, 55399).unwrap();
    let mut f = ping_frame([0x07, 0xd0], b"this is a ping!", 23);
    f[24] = 0;
    f[25] = 0;
    handle_eth_receive(&s.config, &mut s.sockets, &f);
    assert_eq!(pop_data(&mut s.sockets, slot), Some(b"this is a ping!".to_vec()));
}

#[test]
fn tcp_packet_is_not_delivered() {
    let mut s = init();
    let slot = add_socket(&mut s.sockets, ip(10, 0, 2, 2), 2000, 55399).unwrap();
    let mut f = ping_frame([0x07, 0xd0], b"this is a ping!", 23);
    f[23] = 6;
    handle_ip_receive(&s.config, &mut s.sockets, &f[ETH_LEN..]);
    assert_eq!(s.sockets.queued(slot), 0);
}
