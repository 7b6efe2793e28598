//! A small single-host network stack for a bare-metal kernel: wire codecs
//! for Ethernet, ARP, IPv4 and UDP, a socket table with per-socket receive
//! queues, the receive dispatch step, the UDP socket file, and the decisions
//! of PCI device bring-up.

pub mod wire;
pub mod error;
pub mod addr;
pub mod codec;
pub mod socket;
pub mod dispatch;
pub mod udp;
pub mod pci;
pub mod plic;
pub mod hal;
pub mod disk_cursor;
