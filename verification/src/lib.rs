//! Parsing of pcap capture files and of the link, network and transport
//! layers of the packets they hold.

pub mod byteorder;
pub mod layer;
pub mod link;
pub mod network;
pub mod pcap;
pub mod transport;
