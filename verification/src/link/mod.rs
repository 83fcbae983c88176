//! The link layer: Ethernet frames, Linux cooked-capture (SLL) frames, and ARP.

pub mod arp;
pub mod ethernet;
pub mod linux_sll;

pub use arp::ARPPacket;
