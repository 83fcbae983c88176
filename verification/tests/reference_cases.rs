use parser::layer::{parse_packet, parse_pcap, Frame, NetworkPacket, TransportPacket};
use parser::link::arp::{ARPOperation, EthType, HardwareType};
use parser::network::igmp::IGMP;
use parser::network::ipv4::{Flag, Protocol};

// Captures are built in memory: a little-endian, microsecond global header and one
// record per packet.
fn capture(link_type: u32, packets: &[Vec<u8>]) -> Vec<u8> {
    let mut d = vec![0xD4, 0xC3, 0xB2, 0xA1];
    d.extend_from_slice(&2u16.to_le_bytes());
    d.extend_from_slice(&4u16.to_le_bytes());
    d.extend_from_slice(&[0u8; 8]);
    d.extend_from_slice(&262144u32.to_le_bytes());
    d.extend_from_slice(&link_type.to_le_bytes());
    let mut secs = 1_426_550_408u32;
    for p in packets {
        d.extend_from_slice(&secs.to_le_bytes());
        d.extend_from_slice(&123_456u32.to_le_bytes());
        d.extend_from_slice(&(p.len() as u32).to_le_bytes());
        d.extend_from_slice(&(p.len() as u32).to_le_bytes());
        d.extend_from_slice(p);
        secs += 1;
    }
    d
}

/// The frame of the packet at index `n` (0-based).
fn nth_frame(data: &[u8], n: usize) -> Frame<'_> {
    let (header, mut packets) = parse_pcap(data);
    for _ in 0..n {
        packets.next().unwrap();
    }
    let packet = packets.next().unwrap();
    parse_packet(&header, packet)
}

fn ethernet(dest: [u8; 6], source: [u8; 6], ethertype: u16, payload: &[u8]) -> Vec<u8> {
    let mut f = dest.to_vec();
    f.extend_from_slice(&source);
    f.extend_from_slice(&ethertype.to_be_bytes());
    f.extend_from_slice(payload);
    f
}

fn ipv4(dscp_ecn: u8, flags_offset: u16, ttl: u8, protocol: u8, checksum: u16, src: u32, dst: u32, payload: &[u8]) -> Vec<u8> {
    let mut p = vec![0x45, dscp_ecn];
    p.extend_from_slice(&((20 + payload.len()) as u16).to_be_bytes());
    p.extend_from_slice(&0x1c46u16.to_be_bytes());
    p.extend_from_slice(&flags_offset.to_be_bytes());
    p.push(ttl);
    p.push(protocol);
    p.extend_from_slice(&checksum.to_be_bytes());
    p.extend_from_slice(&src.to_be_bytes());
    p.extend_from_slice(&dst.to_be_bytes());
    p.extend_from_slice(payload);
    p
}

fn ipv6(first_line: u32, next_header: u8, hop_limit: u8, src: u128, dst: u128, payload: &[u8]) -> Vec<u8> {
    let mut p = first_line.to_be_bytes().to_vec();
    p.extend_from_slice(&(payload.len() as u16).to_be_bytes());
    p.push(next_header);
    p.push(hop_limit);
    p.extend_from_slice(&src.to_be_bytes());
    p.extend_from_slice(&dst.to_be_bytes());
    p.extend_from_slice(payload);
    p
}

fn tcp(src: u16, dst: u16, seq: u32, ack: u32, flags: u8, window: u16, checksum: u16, urg: u16) -> Vec<u8> {
    let mut t = src.to_be_bytes().to_vec();
    t.extend_from_slice(&dst.to_be_bytes());
    t.extend_from_slice(&seq.to_be_bytes());
    t.extend_from_slice(&ack.to_be_bytes());
    t.push(5 << 4);
    t.push(flags);
    t.extend_from_slice(&window.to_be_bytes());
    t.extend_from_slice(&checksum.to_be_bytes());
    t.extend_from_slice(&urg.to_be_bytes());
    t
}

fn udp(src: u16, dst: u16, payload: &[u8], checksum: u16) -> Vec<u8> {
    let mut u = src.to_be_bytes().to_vec();
    u.extend_from_slice(&dst.to_be_bytes());
    u.extend_from_slice(&((8 + payload.len()) as u16).to_be_bytes());
    u.extend_from_slice(&checksum.to_be_bytes());
    u.extend_from_slice(payload);
    u
}

const MAC_A: [u8; 6] = [0xfa, 0x16, 0x3e, 0x74, 0xda, 0x1a];
const MAC_B: [u8; 6] = [0x00, 0x1b, 0x21, 0x3a, 0x4f, 0x02];

fn mac_u64(mac: [u8; 6]) -> u64 {
    mac.iter().fold(0u64, |acc, &b| (acc << 8) | b as u64)
}

fn protocol_number(protocol: &Protocol) -> u8 {
    match protocol {
        Protocol::ICMP => 1,
        Protocol::IGMP => 2,
        Protocol::TCP => 6,
        Protocol::UDP => 17,
        Protocol::ENCAP => 41,
        Protocol::OSPF => 89,
        Protocol::SCTP => 132,
    }
}

fn flag_number(flag: Flag) -> u8 {
    match flag {
        Flag::Reserved => 0b000,
        Flag::DF => 0b010,
        Flag::MF => 0b001,
    }
}

#[test]
fn linktype_and_magic_number_match_reference() {
    for link_type in [1u32, 113u32] {
        let data = capture(link_type, &[]);
        let (header, _) = parse_pcap(&data[0..24]);
        assert_eq!(u32::from(header.link_type), link_type);
        let magic: String = data[0..4].iter().rev().map(|b| format!("{b:02x}")).collect();
        assert_eq!(magic, "a1b2c3d4");
        assert_eq!(header.major_version, 2);
        assert_eq!(header.minor_version, 4);
        assert_eq!(header.snap_len, 262144);
    }
}

#[test]
fn first_ethernet_frame_matches_reference() {
    let udp_bytes = udp(53, 5353, b"abc", 0x1234);
    let ip = ipv4(0, 0x4000, 64, 17, 0xb861, 0xc0a8_0001, 0xc0a8_00c7, &udp_bytes);
    let data = capture(1, &[ethernet(MAC_A, MAC_B, 0x0800, &ip), ethernet(MAC_B, MAC_A, 0x0800, &ip)]);
    let Frame::Ethernet(eth) = nth_frame(&data, 1) else {
        panic!("expected an Ethernet frame");
    };
    assert_eq!(eth.mac_dest, MAC_B);
    assert_eq!(eth.mac_source, MAC_A);
    assert_eq!(eth.tag, None);
}

#[test]
fn first_arp_packet_matches_reference() {
    let mut arp = vec![0x00, 0x01, 0x08, 0x00, 6, 4, 0x00, 0x01];
    arp.extend_from_slice(&MAC_A);
    arp.extend_from_slice(&0xc0a8_0001u32.to_be_bytes());
    arp.extend_from_slice(&[0u8; 6]);
    arp.extend_from_slice(&0xc0a8_00feu32.to_be_bytes());
    let data = capture(1, &[ethernet([0xff; 6], MAC_A, 0x0806, &arp)]);
    let frame = nth_frame(&data, 0);
    let NetworkPacket::ARP(arp) = frame.packet() else {
        panic!("expected an ARP packet");
    };
    assert!(matches!(arp.hw_type, HardwareType::Eth));
    assert!(matches!(arp.protocol_type, EthType::IPv4));
    assert_eq!(arp.hw_length, 6);
    assert_eq!(arp.protocol_length, 4);
    assert!(matches!(arp.op, ARPOperation::Request));
    assert_eq!(arp.sender_hw_addr, mac_u64(MAC_A));
    assert_eq!(arp.sender_protocol_addr, 0xc0a8_0001);
    assert_eq!(arp.target_hw_addr, 0);
    assert_eq!(arp.target_protocol_addr, 0xc0a8_00fe);
    assert!(arp.payload.is_empty());
}

#[test]
fn first_ipv4_packet_matches_reference() {
    let t = tcp(443, 51234, 1, 2, 0x18, 501, 0xabcd, 0);
    let ip = ipv4(0x2a, 0x4000, 57, 6, 0x9c3e, 0x5db8_d822, 0x0a00_020f, &t);
    let data = capture(1, &[ethernet(MAC_A, MAC_B, 0x0800, &ip)]);
    let frame = nth_frame(&data, 0);
    let NetworkPacket::IPv4(ip) = frame.packet() else {
        panic!("expected an IPv4 packet");
    };
    assert_eq!(ip.version, 4);
    assert_eq!(ip.ihl, 5);
    assert_eq!(ip.dscp, 10);
    assert_eq!(ip.ecn, 2);
    assert_eq!(ip.total_length, 40);
    assert_eq!(flag_number(ip.flag), 0b010);
    assert_eq!(ip.fragment_offset, 0);
    assert_eq!(ip.ttl, 57);
    assert_eq!(protocol_number(&ip.protocol), 6);
    assert_eq!(ip.header_checksum, 0x9c3e);
    assert_eq!(ip.source, 0x5db8_d822);
    assert_eq!(ip.dest, 0x0a00_020f);
    assert!(ip.options.is_empty());
}

#[test]
fn first_tcp_packet_matches_reference() {
    let mut t = tcp(51234, 80, 0x1234_5678, 0x9abc_def0, 0b0001_1000, 29200, 0xfe30, 0);
    t.extend_from_slice(b"GET / HTTP/1.1\r\n");
    let ip = ipv4(0, 0x4000, 64, 6, 0, 0x0a00_0001, 0x0a00_0002, &t);
    let data = capture(1, &[ethernet(MAC_A, MAC_B, 0x0800, &ip)]);
    let frame = nth_frame(&data, 0);
    let NetworkPacket::IPv4(ip) = frame.packet() else {
        panic!("expected an IPv4 packet");
    };
    let TransportPacket::TCP(tcp) = &ip.payload else {
        panic!("expected a TCP segment");
    };
    let expected_flags = 0b0001_1000u8;
    assert_eq!(tcp.source, 51234);
    assert_eq!(tcp.dest, 80);
    assert_eq!(tcp.seq_num, 0x1234_5678);
    assert_eq!(tcp.ack_num, 0x9abc_def0);
    assert_eq!(tcp.flags.cwr, expected_flags & 0b1000_0000 != 0);
    assert_eq!(tcp.flags.ece, expected_flags & 0b0100_0000 != 0);
    assert_eq!(tcp.flags.urg, expected_flags & 0b0010_0000 != 0);
    assert_eq!(tcp.flags.ack, expected_flags & 0b0001_0000 != 0);
    assert_eq!(tcp.flags.psh, expected_flags & 0b0000_1000 != 0);
    assert_eq!(tcp.flags.rst, expected_flags & 0b0000_0100 != 0);
    assert_eq!(tcp.flags.syn, expected_flags & 0b0000_0010 != 0);
    assert_eq!(tcp.flags.fin, expected_flags & 0b0000_0001 != 0);
    assert_eq!(tcp.window, 29200);
    assert_eq!(tcp.checksum, 0xfe30);
    assert_eq!(tcp.urgent_ptr, 0);
    assert_eq!(tcp.data_offset, 5);
    assert_eq!(tcp.reserved, 0);
    assert!(tcp.options.is_empty());
    assert_eq!(tcp.payload, b"GET / HTTP/1.1\r\n");
}

#[test]
fn first_udp_packet_matches_reference() {
    let u = udp(5353, 5353, &[1, 2, 3, 4, 5], 0x8f0e);
    let ip = ipv4(0, 0, 255, 17, 0, 0xc0a8_0105, 0xe000_00fb, &u);
    let data = capture(1, &[ethernet(MAC_A, MAC_B, 0x0800, &ip)]);
    let frame = nth_frame(&data, 0);
    let NetworkPacket::IPv4(ip) = frame.packet() else {
        panic!("expected an IPv4 packet");
    };
    let TransportPacket::UDP(udp) = &ip.payload else {
        panic!("expected a UDP datagram");
    };
    assert_eq!(udp.source, 5353);
    assert_eq!(udp.dest, 5353);
    assert_eq!(udp.length, 13);
    assert_eq!(udp.checksum, 0x8f0e);
    assert_eq!(udp.payload, &[1, 2, 3, 4, 5]);
}

#[test]
fn first_ipv6_packet_matches_reference() {
    let message = [128u8, 0, 0x7c, 0x2e, 0, 1, 0, 9];
    let src = 0xfe80_0000_0000_0000_0211_22ff_fe33_4455u128;
    let dst = 0xff02_0000_0000_0000_0000_0000_0000_0001u128;
    let p = ipv6(0x6b12_3456, 58, 255, src, dst, &message);
    let data = capture(1, &[ethernet(MAC_A, MAC_B, 0x86DD, &p)]);
    let frame = nth_frame(&data, 0);
    let NetworkPacket::IPv6(ipv6) = frame.packet() else {
        panic!("expected an IPv6 packet");
    };
    let header = &ipv6.header;
    assert_eq!(header.version, 6);
    assert_eq!(header.traffic_class, 0xb1);
    assert_eq!(header.flow_label, 0x23456);
    assert_eq!(header.payload_len, 8);
    assert_eq!(header.next_header, 58);
    assert_eq!(header.hop_limit, 255);
    assert_eq!(header.source, src);
    assert_eq!(header.dest, dst);
    assert!(ipv6.extension_headers.is_empty());
}

#[test]
fn first_icmpv6_packet_matches_reference() {
    let message = [135u8, 0, 0x4d, 0x3f, 0, 0, 0, 0];
    let p = ipv6(0x6000_0000, 58, 255, 1, 2, &message);
    let data = capture(1, &[ethernet(MAC_A, MAC_B, 0x86DD, &p)]);
    let frame = nth_frame(&data, 0);
    let NetworkPacket::IPv6(ipv6) = frame.packet() else {
        panic!("expected an IPv6 packet");
    };
    let TransportPacket::ICMPv6(message) = &ipv6.payload else {
        panic!("expected an ICMPv6 message");
    };
    assert_eq!(message.icmp_type, 135);
    assert_eq!(message.code, 0);
    assert_eq!(message.checksum, 0x4d3f);
    assert_eq!(message.rest, 0);
}

#[test]
fn first_igmp_packet_matches_reference() {
    // A version 3 report with two group records: one with a source, one with none.
    let mut igmp = vec![0x22, 0x00, 0xea, 0x03, 0x00, 0x00, 0x00, 0x02];
    igmp.extend_from_slice(&[0x04, 0x00, 0x00, 0x01]);
    igmp.extend_from_slice(&0xe000_00fbu32.to_be_bytes());
    igmp.extend_from_slice(&0xc0a8_0001u32.to_be_bytes());
    igmp.extend_from_slice(&[0x02, 0x00, 0x00, 0x00]);
    igmp.extend_from_slice(&0xefff_fffau32.to_be_bytes());
    let ip = ipv4(0xc0, 0x4000, 1, 2, 0, 0xc0a8_0002, 0xe000_0016, &igmp);
    let data = capture(1, &[ethernet(MAC_A, MAC_B, 0x0800, &ip)]);
    let frame = nth_frame(&data, 0);
    let NetworkPacket::IPv4(ip) = frame.packet() else {
        panic!("expected an IPv4 packet");
    };
    let TransportPacket::IGMP(igmp) = &ip.payload else {
        panic!("expected an IGMP message");
    };
    let IGMP::V3Report(report) = igmp else {
        panic!("expected a version 3 report");
    };
    assert_eq!(report.checksum, 0xea03);
    let first_record = report.group_records.first().unwrap();
    assert_eq!(first_record.multicast_address, 0xe000_00fb);
    assert_eq!(first_record.record_type, 4);
    assert_eq!(first_record.sources, vec![0xc0a8_0001]);
    assert!(first_record.aux_data.is_empty());
    assert_eq!(report.group_records.len(), 2);
    assert_eq!(report.group_records[1].multicast_address, 0xefff_fffa);
}

#[test]
fn first_sll_packet_matches_reference() {
    let u = udp(68, 67, &[0u8; 4], 0);
    let ip = ipv4(0, 0, 64, 17, 0, 0, 0xffff_ffff, &u);
    let mut sll = vec![0x00, 0x04, 0x00, 0x01, 0x00, 0x06];
    sll.extend_from_slice(&MAC_A);
    sll.extend_from_slice(&[0, 0]);
    sll.extend_from_slice(&0x0800u16.to_be_bytes());
    sll.extend_from_slice(&ip);
    let data = capture(113, &[sll]);
    let Frame::SLL(sll) = nth_frame(&data, 0) else {
        panic!("expected a Linux SLL frame");
    };
    assert_eq!(sll.packet_type, 4);
    assert_eq!(sll.link_layer_addr_length, 6);
    assert_eq!(sll.protocol_type, 0x0800);
    assert_eq!(sll.arphrd_type, 1);
    assert_eq!(sll.link_layer_addr, mac_u64(MAC_A));
}
