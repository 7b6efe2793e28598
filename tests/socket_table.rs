use rcore_net::addr::ip;
use rcore_net::error::NetError;
use rcore_net::socket::{add_socket, get_socket, pop_data, push_data, remove_socket, SocketTable};

#[test]
fn push_then_pop_in_order() {
    let mut t = SocketTable::new();
    let s = add_socket(&mut t, ip(10, 0, 2, 2), 2000, 26099).unwrap();
    push_data(&mut t, s, b"hello".to_vec());
    assert_eq!(pop_data(&mut t, s), Some(b"hello".to_vec()));
    assert_eq!(pop_data(&mut t, s), None);
}

#[test]
fn queue_is_fifo() {
    let mut t = SocketTable::new();
    let s = add_socket(&mut t, 1, 2, 3).unwrap();
    push_data(&mut t, s, vec![1]);
    push_data(&mut t, s, vec![2, 2]);
    push_data(&mut t, s, vec![]);
    assert_eq!(t.queued(s), 3);
    assert_eq!(pop_data(&mut t, s), Some(vec![1]));
    assert_eq!(pop_data(&mut t, s), Some(vec![2, 2]));
    assert_eq!(pop_data(&mut t, s), Some(vec![]));
    assert_eq!(pop_data(&mut t, s), None);
    assert_eq!(t.queued(s), 0);
}

#[test]
fn duplicate_identity_is_refused() {
    let mut t = SocketTable::new();
    assert_eq!(add_socket(&mut t, ip(10, 0, 2, 2), 2000, 26099), Ok(0));
    assert_eq!(add_socket(&mut t, ip(10, 0, 2, 2), 2000, 26099), Err(NetError::DuplicateSocket));
    assert_eq!(t.len(), 1);
    // any field differing makes a new identity
    assert_eq!(add_socket(&mut t, ip(10, 0, 2, 3), 2000, 26099), Ok(1));
    assert_eq!(add_socket(&mut t, ip(10, 0, 2, 2), 2001, 26099), Ok(2));
    assert_eq!(add_socket(&mut t, ip(10, 0, 2, 2), 2000, 26098), Ok(3));
}

#[test]
fn removed_identity_can_be_added_again() {
    let mut t = SocketTable::new();
    let s = add_socket(&mut t, 7, 8, 9).unwrap();
    remove_socket(&mut t, s);
    assert_eq!(get_socket(&t, 7, 8, 9), None);
    assert_eq!(add_socket(&mut t, 7, 8, 9), Ok(s));
}

#[test]
fn removed_slot_is_reused_before_growing() {
    let mut t = SocketTable::new();
    for p in 0..4u16 {
        assert_eq!(add_socket(&mut t, 1, p, 0), Ok(p as usize));
    }
    remove_socket(&mut t, 2);
    assert!(!t.is_live_slot(2));
    assert_eq!(add_socket(&mut t, 1, 100, 0), Ok(2));
    assert_eq!(t.len(), 4);
    assert_eq!(add_socket(&mut t, 1, 101, 0), Ok(4));
    assert_eq!(t.len(), 5);
}

#[test]
fn lowest_empty_slot_is_filled_first() {
    let mut t = SocketTable::new();
    for p in 0..4u16 {
        add_socket(&mut t, 1, p, 0).unwrap();
    }
    remove_socket(&mut t, 3);
    remove_socket(&mut t, 1);
    assert_eq!(add_socket(&mut t, 2, 0, 0), Ok(1));
    assert_eq!(add_socket(&mut t, 2, 1, 0), Ok(3));
}

#[test]
fn get_socket_finds_live_sockets_only() {
    let mut t = SocketTable::new();
    assert_eq!(get_socket(&t, 1, 2, 3), None);
    add_socket(&mut t, 5, 5, 5).unwrap();
    let s = add_socket(&mut t, 1, 2, 3).unwrap();
    assert_eq!(get_socket(&t, 1, 2, 3), Some(s));
    assert_eq!(get_socket(&t, 1, 2, 4), None);
    remove_socket(&mut t, s);
    assert_eq!(get_socket(&t, 1, 2, 3), None);
}

#[test]
fn queues_of_sockets_are_separate() {
    let mut t = SocketTable::new();
    let a = add_socket(&mut t, 1, 1, 1).unwrap();
    let b = add_socket(&mut t, 2, 2, 2).unwrap();
    push_data(&mut t, a, vec![0xaa]);
    assert_eq!(pop_data(&mut t, b), None);
    assert_eq!(pop_data(&mut t, a), Some(vec![0xaa]));
}
