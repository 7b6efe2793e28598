use rcore_net::addr::ip;
use rcore_net::codec::ip as IpHeader;
use rcore_net::dispatch::{handle_eth_receive, init};
use rcore_net::error::NetError;
use rcore_net::socket::{get_socket, push_data};
use rcore_net::udp::{build_udp_frame, checksum, copy_to_segments, gather, UDP};

#[test]
fn connect_registers_socket() {
    let mut s = init();
    let u = UDP::new(&mut s.sockets, ip(10, 0, 2, 2), 2000, 26099).unwrap();
    assert_eq!(get_socket(&s.sockets, ip(10, 0, 2, 2), 2000, 26099), Some(u.socket_index));
    assert!(u.readable() && u.writable());
}

#[test]
fn connect_twice_fails() {
    let mut s = init();
    let _u = UDP::new(&mut s.sockets, ip(10, 0, 2, 2), 2000, 26099).unwrap();
    assert_eq!(
        UDP::new(&mut s.sockets, ip(10, 0, 2, 2), 2000, 26099).unwrap_err(),
        NetError::DuplicateSocket
    );
}

#[test]
fn close_frees_the_identity() {
    let mut s = init();
    let u = UDP::new(&mut s.sockets, 1, 2, 3).unwrap();
    let i = u.socket_index;
    u.close(&mut s.sockets);
    assert_eq!(get_socket(&s.sockets, 1, 2, 3), None);
    assert_eq!(UDP::new(&mut s.sockets, 1, 2, 3).unwrap().socket_index, i);
}

#[test]
fn read_with_nothing_queued_changes_nothing() {
    let mut s = init();
    let u = UDP::new(&mut s.sockets, 1, 2, 3).unwrap();
    let mut bufs = vec![vec![7u8; 4]];
    assert_eq!(u.read(&mut s.sockets, &mut bufs), None);
    assert_eq!(bufs, vec![vec![7u8; 4]]);
}

#[test]
fn read_spreads_datagram_over_segments() {
    let mut s = init();
    let u = UDP::new(&mut s.sockets, 1, 2, 3).unwrap();
    push_data(&mut s.sockets, u.socket_index, b"hello world".to_vec());
    let mut bufs = vec![vec![0u8; 4], vec![0u8; 3], vec![0u8; 10]];
    assert_eq!(u.read(&mut s.sockets, &mut bufs), Some(11));
    assert_eq!(bufs[0], b"hell".to_vec());
    assert_eq!(bufs[1], b"o w".to_vec());
    assert_eq!(bufs[2], b"orld\0\0\0\0\0\0".to_vec());
    assert_eq!(s.sockets.queued(u.socket_index), 0);
}

#[test]
fn read_drops_what_does_not_fit() {
    let mut s = init();
    let u = UDP::new(&mut s.sockets, 1, 2, 3).unwrap();
    push_data(&mut s.sockets, u.socket_index, b"hello world".to_vec());
    push_data(&mut s.sockets, u.socket_index, b"next".to_vec());
    let mut bufs = vec![vec![0u8; 2], vec![], vec![0u8; 3]];
    assert_eq!(u.read(&mut s.sockets, &mut bufs), Some(5));
    assert_eq!(bufs, vec![b"he".to_vec(), vec![], b"llo".to_vec()]);
    let mut more = vec![vec![0u8; 8]];
    assert_eq!(u.read(&mut s.sockets, &mut more), Some(4));
    assert_eq!(more[0], b"next\0\0\0\0".to_vec());
}

#[test]
fn copy_into_no_segments_copies_nothing() {
    let mut bufs: Vec<Vec<u8>> = vec![];
    assert_eq!(copy_to_segments(&b"abc".to_vec(), &mut bufs), 0);
}

#[test]
fn gather_concatenates_in_order() {
    assert_eq!(gather(&vec![b"ab".to_vec(), vec![], b"c".to_vec()]), b"abc".to_vec());
    assert_eq!(gather(&vec![]), Vec::<u8>::new());
}

#[test]
fn checksum_matches_captured_header() {
    let h = IpHeader {
        vhl: 0x45,
        tos: 0,
        len: 0x2b,
        id: 3,
        off: 0,
        ttl: 0x40,
        pro: 17,
        sum: 0,
        src: ip(10, 0, 2, 2),
        dst: ip(10, 0, 2, 15),
    };
    assert_eq!(checksum(&h), 0x62af);
}

#[test]
fn write_builds_one_datagram() {
    let mut s = init();
    let u = UDP::new(&mut s.sockets, ip(10, 0, 2, 2), 2000, 26099).unwrap();
    let f = u.write(&s.config, &vec![b"he".to_vec(), b"llo".to_vec()]).unwrap();
    let mut expected = vec![
        0xff, 0xff, 0xff, 0xff, 0xff, 0xff, 0x52, 0x54, 0x00, 0x12, 0x34, 0x56, 0x08, 0x00, 0x45,
        0x00, 0x00, 0x21, 0x00, 0x00, 0x00, 0x00, 0x40, 0x11, 0x62, 0xbc, 0x0a, 0x00, 0x02, 0x0f,
        0x0a, 0x00, 0x02, 0x02, 0x07, 0xd0, 0x65, 0xf3, 0x00, 0x0d, 0x00, 0x00,
    ];
    expected.extend_from_slice(b"hello");
    assert_eq!(f, expected);
}

#[test]
fn write_of_too_much_fails() {
    let mut s = init();
    let u = UDP::new(&mut s.sockets, 1, 2, 3).unwrap();
    let big = vec![vec![0u8; 65535 - 28], vec![1u8]];
    assert_eq!(u.write(&s.config, &big), Err(NetError::TransmitFailure));
    let just = vec![vec![0u8; 65535 - 28]];
    assert_eq!(u.write(&s.config, &just).unwrap().len(), 14 + 65535);
}

#[test]
fn written_frame_is_delivered_by_peer_stack() {
    // the peer at 10.0.2.2 receives what the local host wrote
    let mut local = init();
    let u = UDP::new(&mut local.sockets, ip(10, 0, 2, 2), 2000, 26099).unwrap();
    let f = u.write(&local.config, &vec![b"ping".to_vec()]).unwrap();
    let mut peer = init();
    peer.config.ip = ip(10, 0, 2, 2);
    let p = UDP::new(&mut peer.sockets, ip(10, 0, 2, 15), 26099, 2000).unwrap();
    assert_eq!(handle_eth_receive(&peer.config, &mut peer.sockets, &f), None);
    let mut bufs = vec![vec![0u8; 16]];
    assert_eq!(p.read(&mut peer.sockets, &mut bufs), Some(4));
    assert_eq!(&bufs[0][..4], b"ping");
}

#[test]
fn build_udp_frame_of_empty_payload() {
    let s = init();
    let f = build_udp_frame(&s.config, 1, 2, 3, &[]);
    assert_eq!(f.len(), 14 + 20 + 8);
    assert_eq!(&f[38..40], &[0x00, 0x08]);
}
