//! The network layer: IPv4, IPv6, and the control protocols ICMP, ICMPv6 and IGMP.
use vstd::prelude::*;

pub mod icmpv4;
pub mod icmpv4_types;
pub mod icmpv6;
pub mod icmpv6_types;
pub mod igmp;
pub mod igmp_types;
pub mod ipv4;
pub mod ipv6;

pub use icmpv4::ICMP;
pub use icmpv4_types::describe as describe_icmp;
pub use icmpv6::ICMPv6;
pub use icmpv6_types::describe as describe_icmpv6;
pub use igmp::IGMP;
pub use igmp_types::describe as describe_igmp;
pub use ipv4::{IPv4Packet, IpOption};
pub use ipv6::{ExtensionHeader, IPv6Packet};

verus! {

/// The characters of an optional description.
pub open spec fn described(d: Option<&str>) -> Option<Seq<char>> {
    match d {
        Some(s) => Some(s@),
        None => None,
    }
}

} // verus!
