//! The pcap file format: its global header, its packet records, and a cursor over bytes.

pub mod cursor;
pub mod header;
pub mod record;

pub use cursor::{Cursor, CursorError};
pub use record::{Packet, PacketIter};
