//! The transport layer: TCP and UDP.

pub mod tcp;
pub mod udp;

pub use tcp::TCPPacket;
pub use udp::UDPPacket;
