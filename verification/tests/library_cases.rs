use parser::layer::{parse_packet, parse_pcap, try_parse_packet, try_parse_pcap, Frame, NetworkPacket, TransportPacket};
use parser::network::igmp::IGMP;
use parser::network::ipv4::{IpOption, Protocol};
use parser::network::ipv6::ExtensionHeader;
use parser::network::{describe_icmp, describe_icmpv6, describe_igmp};
use parser::pcap::header::{Endianness, TSecs};
use parser::pcap::record::{RecordError, Timestamp};
use parser::pcap::{Cursor, PacketIter};
use parser::transport::tcp::TcpOption;

fn global_header(magic: [u8; 4], big: bool, link_type: u32) -> Vec<u8> {
    let mut d = magic.to_vec();
    let w16 = |v: u16| if big { v.to_be_bytes() } else { v.to_le_bytes() };
    let w32 = |v: u32| if big { v.to_be_bytes() } else { v.to_le_bytes() };
    d.extend_from_slice(&w16(2));
    d.extend_from_slice(&w16(4));
    d.extend_from_slice(&[0u8; 8]);
    d.extend_from_slice(&w32(65535));
    d.extend_from_slice(&w32(link_type));
    d
}

fn record(big: bool, secs: u32, frac: u32, captured: u32, original: u32, payload: &[u8]) -> Vec<u8> {
    let w32 = |v: u32| if big { v.to_be_bytes() } else { v.to_le_bytes() };
    let mut d = w32(secs).to_vec();
    d.extend_from_slice(&w32(frac));
    d.extend_from_slice(&w32(captured));
    d.extend_from_slice(&w32(original));
    d.extend_from_slice(payload);
    d
}

fn le_micro(link_type: u32) -> Vec<u8> {
    global_header([0xD4, 0xC3, 0xB2, 0xA1], false, link_type)
}

fn ethernet(ethertype: u16, payload: &[u8]) -> Vec<u8> {
    let mut f = vec![0xff; 6];
    f.extend_from_slice(&[0x00, 0x11, 0x22, 0x33, 0x44, 0x55]);
    f.extend_from_slice(&ethertype.to_be_bytes());
    f.extend_from_slice(payload);
    f
}

fn ipv4_with(ihl: u8, total_length: u16, flags_offset: u16, protocol: u8, options: &[u8], payload: &[u8]) -> Vec<u8> {
    let mut p = vec![0x40 | ihl, 0];
    p.extend_from_slice(&total_length.to_be_bytes());
    p.extend_from_slice(&7u16.to_be_bytes());
    p.extend_from_slice(&flags_offset.to_be_bytes());
    p.push(64);
    p.push(protocol);
    p.extend_from_slice(&0u16.to_be_bytes());
    p.extend_from_slice(&0x0a00_0001u32.to_be_bytes());
    p.extend_from_slice(&0x0a00_0002u32.to_be_bytes());
    p.extend_from_slice(options);
    p.extend_from_slice(payload);
    p
}

fn ipv4(protocol: u8, payload: &[u8]) -> Vec<u8> {
    ipv4_with(5, (20 + payload.len()) as u16, 0, protocol, &[], payload)
}

fn udp(payload: &[u8]) -> Vec<u8> {
    let mut u = 1000u16.to_be_bytes().to_vec();
    u.extend_from_slice(&2000u16.to_be_bytes());
    u.extend_from_slice(&((8 + payload.len()) as u16).to_be_bytes());
    u.extend_from_slice(&0u16.to_be_bytes());
    u.extend_from_slice(payload);
    u
}

/// The frame of a one-packet Ethernet capture; `None` where it holds none.
fn frame_of(link_type: u32, packet: &[u8], keep: impl FnOnce(Option<Frame<'_>>)) {
    let mut data = le_micro(link_type);
    data.extend_from_slice(&record(false, 10, 0, packet.len() as u32, packet.len() as u32, packet));
    let (header, mut packets) = parse_pcap(&data);
    let p = packets.next().unwrap();
    keep(try_parse_packet(&header, p));
}

#[test]
fn cursor_reads_in_order_and_byte_order() {
    let bytes = [0x01u8, 0x02, 0x03, 0x04, 0x05, 0x06, 0x07, 0x08, 0x09, 0x0a];
    let mut c = Cursor::new(&bytes);
    assert!(c.has_remaining());
    assert_eq!(c.u8().unwrap(), 0x01);
    assert_eq!(c.u16_be().unwrap(), 0x0203);
    c.set_endianness(&Endianness::Little);
    assert_eq!(c.u16().unwrap(), 0x0504);
    c.set_endianness(&Endianness::Big);
    assert_eq!(c.u32().unwrap(), 0x0607_0809);
    assert_eq!(c.remaining(), &[0x0a]);
    assert!(c.u16_be().is_err());
    assert!(!c.has_remaining());
}

#[test]
fn cursor_wide_reads() {
    let bytes: Vec<u8> = (1..=16).collect();
    let mut c = Cursor::new(&bytes);
    assert_eq!(c.u64_be().unwrap(), 0x0102_0304_0506_0708);
    let mut c = Cursor::new(&bytes);
    c.set_endianness(&Endianness::Little);
    assert_eq!(c.u64().unwrap(), 0x0807_0605_0403_0201);
    let mut c = Cursor::new(&bytes);
    assert_eq!(c.u128_be().unwrap(), 0x0102_0304_0506_0708_090a_0b0c_0d0e_0f10);
    let mut c = Cursor::new(&bytes);
    c.set_endianness(&Endianness::Little);
    assert_eq!(c.u128().unwrap(), 0x100f_0e0d_0c0b_0a09_0807_0605_0403_0201);
    assert!(!c.has_remaining());
    let mut c = Cursor::new(&bytes);
    assert_eq!(c.bytes(3).unwrap(), &[1, 2, 3]);
    assert_eq!(c.remaining().len(), 13);
    assert!(c.bytes(14).is_err());
    assert!(!c.has_remaining());
}

#[test]
fn header_of_each_magic_number() {
    let cases: [([u8; 4], bool, bool); 4] = [
        ([0xD4, 0xC3, 0xB2, 0xA1], false, false),
        ([0x4D, 0x3C, 0xB2, 0xA1], false, true),
        ([0xA1, 0xB2, 0xC3, 0xD4], true, false),
        ([0xA1, 0xB2, 0x3C, 0x4D], true, true),
    ];
    for (magic, big, nano) in cases {
        let data = global_header(magic, big, 113);
        let (header, _) = try_parse_pcap(&data).unwrap();
        assert_eq!(header.link_type, 113);
        assert_eq!(header.major_version, 2);
        assert_eq!(header.minor_version, 4);
        assert_eq!(header.snap_len, 65535);
        assert!(matches!(header.endian, Some(Endianness::Big)) == big);
        assert!(matches!(header.tsec, Some(TSecs::Nano)) == nano);
        assert_eq!((header.fcs, header.p, header.r), (0, 0, 0));
    }
}

#[test]
fn header_rejections() {
    assert!(try_parse_pcap(&[0xD4, 0xC3, 0xB2]).is_none());
    assert!(try_parse_pcap(&global_header([1, 2, 3, 4], false, 1)).is_none());
    let mut reserved = le_micro(1);
    reserved[9] = 1;
    assert!(try_parse_pcap(&reserved).is_none());
    // R is bits 16 to 27 of the last field.
    assert!(try_parse_pcap(&le_micro(1 | (1 << 16))).is_none());
    // A frame check sequence length needs the P bit.
    assert!(try_parse_pcap(&le_micro(1 | (2 << 29))).is_none());
    let (header, _) = try_parse_pcap(&le_micro(1 | (2 << 29) | (1 << 28))).unwrap();
    assert_eq!((header.fcs, header.p, header.link_type), (2, 1, 1));
    assert!(try_parse_pcap(&le_micro(1)[0..23]).is_none());
}

#[test]
fn records_and_timestamps() {
    let mut data = le_micro(1);
    data.extend_from_slice(&record(false, 1_000, 250_000, 3, 60, &[7, 8, 9]));
    data.extend_from_slice(&record(false, 1_001, 0, 0, 0, &[]));
    let (_, mut packets) = parse_pcap(&data);
    let p = packets.next().unwrap();
    assert_eq!(p.timestamp, Timestamp { secs: 1_000, nanos: 250_000_000 });
    assert_eq!(p.captured_length, 3);
    assert_eq!(p.original_length, 60);
    assert!(p.truncated);
    assert_eq!(p.payload, &[7, 8, 9]);
    let p = packets.next().unwrap();
    assert!(!p.truncated);
    assert!(p.payload.is_empty());
    assert!(packets.next().is_none());
    assert!(packets.next().is_none());

    let mut nano = global_header([0xA1, 0xB2, 0x3C, 0x4D], true, 1);
    nano.extend_from_slice(&record(true, 59, 1_500_000_000, 0, 0, &[]));
    let (_, mut packets) = parse_pcap(&nano);
    assert_eq!(packets.next().unwrap().timestamp, Timestamp { secs: 59, nanos: 1_500_000_000 });
}

#[test]
fn record_errors() {
    let mut short = le_micro(1);
    short.extend_from_slice(&[0u8; 15]);
    let (_, mut packets) = parse_pcap(&short);
    assert!(matches!(packets.try_next(), Err(RecordError::Truncated)));

    let mut missing = le_micro(1);
    missing.extend_from_slice(&record(false, 1, 0, 10, 10, &[0u8; 9]));
    let (_, mut packets) = parse_pcap(&missing);
    assert!(matches!(packets.try_next(), Err(RecordError::Truncated)));

    let mut micro = le_micro(1);
    micro.extend_from_slice(&record(false, 1, 4_294_968, 0, 0, &[]));
    let (_, mut packets) = parse_pcap(&micro);
    assert!(matches!(packets.try_next(), Err(RecordError::BadTimestamp)));

    let mut nano = global_header([0x4D, 0x3C, 0xB2, 0xA1], false, 1);
    nano.extend_from_slice(&record(false, 58, 1_000_000_000, 0, 0, &[]));
    let (_, mut packets) = parse_pcap(&nano);
    assert!(matches!(packets.try_next(), Err(RecordError::BadTimestamp)));

    let empty = le_micro(1);
    let (_, mut packets) = parse_pcap(&empty);
    assert!(matches!(packets.try_next(), Ok(None)));
}

#[test]
fn packet_iter_from_a_cursor() {
    let mut bytes = Vec::new();
    bytes.extend_from_slice(&record(true, 5, 6, 1, 1, &[42]));
    let mut cur = Cursor::new(&bytes);
    cur.set_endianness(&Endianness::Big);
    let mut packets = PacketIter::new(cur, TSecs::Nano);
    let p = packets.next().unwrap();
    assert_eq!(p.timestamp, Timestamp { secs: 5, nanos: 6 });
    assert_eq!(p.payload, &[42]);
    assert!(packets.next().is_none());
}

#[test]
fn descriptions() {
    assert_eq!(describe_icmp(0, 0), "Echo Reply");
    assert_eq!(describe_icmp(3, 1), "Destination Unreachable: Host unreachable error.");
    assert_eq!(describe_icmp(3, 16), "Destination Unreachable");
    assert_eq!(describe_icmp(5, 3), "Redirect: Redirect for Type of Service and Host");
    assert_eq!(describe_icmp(12, 2), "Parameter Problem: Bad IP Header: Bad length");
    assert_eq!(describe_icmp(43, 4), "Extended Echo Reply: Multiple Interfaces Satisfy Query");
    assert_eq!(describe_icmp(99, 0), "Unknown");
    assert_eq!(describe_icmpv6(1, 4), "Destination Unreachable: Port unreachable.");
    assert_eq!(describe_icmpv6(3, 1), "Time Exceeded: Fragment reassembly time exceeded.");
    assert_eq!(describe_icmpv6(138, 255), "Router Renumbering: Sequence number reset.");
    assert_eq!(describe_icmpv6(128, 0), "Echo Request");
    assert_eq!(describe_icmpv6(201, 0), "Private Experimentation");
    assert_eq!(describe_icmpv6(0, 0), "Unknown");
    assert_eq!(describe_igmp(0x22), "IGMPv3 Membership Report");
    assert_eq!(describe_igmp(0x11), "Membership Query");
    assert_eq!(describe_igmp(0x99), "Unknown");
}

#[test]
fn icmp_through_ipv4() {
    let message = [3u8, 3, 0x12, 0x34, 0, 0, 0, 0];
    frame_of(1, &ethernet(0x0800, &ipv4(1, &message)), |f| {
        let f = f.unwrap();
        let NetworkPacket::IPv4(ip) = f.packet() else { panic!("expected IPv4") };
        let TransportPacket::ICMP(message) = &ip.payload else { panic!("expected ICMP") };
        assert_eq!(message.checksum, 0x1234);
        assert_eq!(message.to_string(), "Destination Unreachable: Port unreachable error (the designated protocol is unable to inform the host of the incoming message).");
    });
}

#[test]
fn ipv4_options_and_rejections() {
    let options = [0x01, 0x07, 0x03, 0xaa];
    let payload = udp(&[1]);
    let p = ipv4_with(6, (24 + payload.len()) as u16, 0x2000 | 5, 17, &options, &payload);
    frame_of(1, &ethernet(0x0800, &p), |f| {
        let NetworkPacket::IPv4(ip) = f.unwrap().into_packet() else { panic!("expected IPv4") };
        assert_eq!(ip.options.len(), 2);
        assert!(matches!(ip.options[0], IpOption::NoOp));
        assert!(matches!(ip.options[1], IpOption::RecordRoute(v) if v == [0xaa]));
        assert_eq!(ip.fragment_offset, 5);
        let TransportPacket::UDP(u) = ip.payload else { panic!("expected UDP") };
        assert_eq!(u.payload, &[1]);
    });
    let options = [0x00, 0x44, 0x08, 0x01];
    let p = ipv4_with(6, (24 + payload.len()) as u16, 0, 17, &options, &payload);
    frame_of(1, &ethernet(0x0800, &p), |f| {
        let NetworkPacket::IPv4(ip) = f.unwrap().into_packet() else { panic!("expected IPv4") };
        assert_eq!(ip.options.len(), 1);
        assert!(matches!(ip.options[0], IpOption::EndOfList));
    });
    // A total length of 0 leaves the payload to the end of the bytes.
    let p = ipv4_with(5, 0, 0, 17, &[], &payload);
    frame_of(1, &ethernet(0x0800, &p), |f| {
        let NetworkPacket::IPv4(ip) = f.unwrap().into_packet() else { panic!("expected IPv4") };
        assert!(matches!(ip.payload, TransportPacket::UDP(_)));
    });
    // Flag bits 3, OSPF, and an unknown protocol are not parsed.
    frame_of(1, &ethernet(0x0800, &ipv4_with(5, 28, 0x6000, 17, &[], &payload)), |f| assert!(f.is_none()));
    frame_of(1, &ethernet(0x0800, &ipv4(89, &payload)), |f| assert!(f.is_none()));
    frame_of(1, &ethernet(0x0800, &ipv4(200, &payload)), |f| assert!(f.is_none()));
    // A total length past the end of the bytes.
    frame_of(1, &ethernet(0x0800, &ipv4_with(5, 100, 0, 17, &[], &payload)), |f| assert!(f.is_none()));
}

#[test]
fn tcp_options() {
    let mut t = 80u16.to_be_bytes().to_vec();
    t.extend_from_slice(&443u16.to_be_bytes());
    t.extend_from_slice(&[0, 0, 0, 1, 0, 0, 0, 0]);
    t.push(8 << 4);
    t.push(0b0000_0010);
    t.extend_from_slice(&[0xff, 0xff, 0, 0, 0, 0]);
    t.extend_from_slice(&[2, 4, 0x05, 0xb4, 1, 3, 3, 7, 4, 2, 0, 0]);
    t.extend_from_slice(b"xy");
    frame_of(1, &ethernet(0x0800, &ipv4(6, &t)), |f| {
        let NetworkPacket::IPv4(ip) = f.unwrap().into_packet() else { panic!("expected IPv4") };
        let TransportPacket::TCP(tcp) = ip.payload else { panic!("expected TCP") };
        assert!(tcp.flags.syn && !tcp.flags.ack);
        assert_eq!(tcp.data_offset, 8);
        assert_eq!(tcp.options.len(), 5);
        assert!(matches!(tcp.options[0], TcpOption::MaxSegmentSize(1460)));
        assert!(matches!(tcp.options[1], TcpOption::NoOp));
        assert!(matches!(tcp.options[2], TcpOption::WindowScale(7)));
        assert!(matches!(tcp.options[3], TcpOption::SackPermitted));
        assert!(matches!(tcp.options[4], TcpOption::EndOfOptions));
        assert_eq!(tcp.payload, b"xy");
    });
    let mut t2 = t[0..12].to_vec();
    t2.push(8 << 4);
    t2.extend_from_slice(&t[13..20]);
    t2.extend_from_slice(&[8, 10, 0, 0, 0, 9, 0, 0, 1, 0, 5, 1]);
    frame_of(1, &ethernet(0x0800, &ipv4(6, &t2)), |f| {
        let NetworkPacket::IPv4(ip) = f.unwrap().into_packet() else { panic!("expected IPv4") };
        let TransportPacket::TCP(tcp) = ip.payload else { panic!("expected TCP") };
        assert!(matches!(tcp.options[0], TcpOption::Timestamps { tsval: 9, tsecr: 256 }));
        // A length below 2 ends the list.
        assert_eq!(tcp.options.len(), 1);
    });
}

#[test]
fn ipv6_extension_headers() {
    let u = udp(&[9, 9]);
    let mut ext = vec![44, 0, 1, 2, 3, 4, 5, 6];
    ext.extend_from_slice(&[17, 0, 0x00, 0x29, 0, 0, 0, 42]);
    let mut p = 0x6000_0000u32.to_be_bytes().to_vec();
    p.extend_from_slice(&((ext.len() + u.len()) as u16).to_be_bytes());
    p.push(0);
    p.push(64);
    p.extend_from_slice(&[0u8; 32]);
    p.extend_from_slice(&ext);
    p.extend_from_slice(&u);
    frame_of(1, &ethernet(0x86DD, &p), |f| {
        let NetworkPacket::IPv6(ip) = f.unwrap().into_packet() else { panic!("expected IPv6") };
        assert_eq!(ip.extension_headers.len(), 2);
        assert!(matches!(ip.extension_headers[0], ExtensionHeader::HopByHopOptions { next_header: 44, data } if data == [1, 2, 3, 4, 5, 6]));
        assert!(matches!(
            ip.extension_headers[1],
            ExtensionHeader::FragmentHeader { next_header: 17, fragment_offset: 5, more_fragments: true, identification: 42 }
        ));
        let TransportPacket::UDP(u) = ip.payload else { panic!("expected UDP") };
        assert_eq!(u.payload, &[9, 9]);
    });
    // An authentication header counts its length in 4-octet units, less 2.
    let mut ah = vec![17, 1, 0, 0, 1, 2, 3, 4, 5, 6, 7, 8];
    ah.extend_from_slice(&u);
    let mut p = 0x6000_0000u32.to_be_bytes().to_vec();
    p.extend_from_slice(&(ah.len() as u16).to_be_bytes());
    p.push(51);
    p.push(64);
    p.extend_from_slice(&[0u8; 32]);
    p.extend_from_slice(&ah);
    frame_of(1, &ethernet(0x86DD, &p), |f| {
        let NetworkPacket::IPv6(ip) = f.unwrap().into_packet() else { panic!("expected IPv6") };
        assert!(matches!(ip.extension_headers[0], ExtensionHeader::AuthHeader { next_header: 17, data } if data.len() == 10));
        assert!(matches!(ip.payload, TransportPacket::UDP(_)));
    });
    // A next header that is parsed as no transport protocol.
    let mut p = 0x6000_0000u32.to_be_bytes().to_vec();
    p.extend_from_slice(&0u16.to_be_bytes());
    p.push(59);
    p.push(64);
    p.extend_from_slice(&[0u8; 32]);
    frame_of(1, &ethernet(0x86DD, &p), |f| assert!(f.is_none()));
}

#[test]
fn igmp_messages() {
    // A version 3 query with two sources and floating-point codes.
    let mut q = vec![0x11, 0x8a, 0xbe, 0xef];
    q.extend_from_slice(&0u32.to_be_bytes());
    q.extend_from_slice(&[0b0000_1010, 0xff, 0, 2]);
    q.extend_from_slice(&0xc0a8_0001u32.to_be_bytes());
    q.extend_from_slice(&0xc0a8_0002u32.to_be_bytes());
    frame_of(1, &ethernet(0x0800, &ipv4(2, &q)), |f| {
        let NetworkPacket::IPv4(ip) = f.unwrap().into_packet() else { panic!("expected IPv4") };
        let TransportPacket::IGMP(igmp) = ip.payload else { panic!("expected IGMP") };
        assert_eq!(igmp.to_string(), "Membership Query");
        let IGMP::V3Query(q) = igmp else { panic!("expected a version 3 query") };
        // 0x8a: exponent 0, mantissa 10: (10 + 16) << 3.
        assert_eq!(q.max_resp_time, 208);
        // 0xff: exponent 7, mantissa 15: (15 + 16) << 10.
        assert_eq!(q.qqic, 31744);
        assert!(q.suppress_router_side_processing);
        assert_eq!(q.qrv, 2);
        assert_eq!(q.checksum, 0xbeef);
        assert_eq!(q.sources, vec![0xc0a8_0001, 0xc0a8_0002]);
    });
    // Codes below 128 are their own value.
    let mut q = vec![0x11, 0x7f, 0, 0, 0, 0, 0, 0, 0x07, 0x0a, 0, 0];
    frame_of(1, &ethernet(0x0800, &ipv4(2, &q)), |f| {
        let NetworkPacket::IPv4(ip) = f.unwrap().into_packet() else { panic!("expected IPv4") };
        let TransportPacket::IGMP(IGMP::V3Query(query)) = ip.payload else { panic!("expected a version 3 query") };
        assert_eq!((query.max_resp_time, query.qqic, query.qrv), (127, 10, 7));
        assert!(!query.suppress_router_side_processing);
        assert!(query.sources.is_empty());
    });
    // A query that announces more sources than it holds.
    q[11] = 1;
    frame_of(1, &ethernet(0x0800, &ipv4(2, &q)), |f| assert!(f.is_none()));
    // Eight bytes of a membership query make a version 1 or 2 message.
    let v2 = [0x11u8, 0x64, 0, 0, 0xe0, 0, 0, 1];
    frame_of(1, &ethernet(0x0800, &ipv4(2, &v2)), |f| {
        let NetworkPacket::IPv4(ip) = f.unwrap().into_packet() else { panic!("expected IPv4") };
        let TransportPacket::IGMP(IGMP::V1V2 { igmp_type, max_resp_time, group_address, .. }) = ip.payload else {
            panic!("expected a version 1 or 2 message")
        };
        assert_eq!((igmp_type, max_resp_time, group_address), (0x11, 0x64, 0xe000_0001));
    });
    let leave = [0x17u8, 0, 0, 0, 0xe0, 0, 0, 2];
    frame_of(1, &ethernet(0x0800, &ipv4(2, &leave)), |f| {
        let NetworkPacket::IPv4(ip) = f.unwrap().into_packet() else { panic!("expected IPv4") };
        let TransportPacket::IGMP(igmp) = ip.payload else { panic!("expected IGMP") };
        assert_eq!(igmp.to_string(), "Leave Group");
    });
    frame_of(1, &ethernet(0x0800, &ipv4(2, &[0x30, 0, 0, 0, 0, 0, 0, 0])), |f| assert!(f.is_none()));
    // A report that announces more group records than it holds.
    frame_of(1, &ethernet(0x0800, &ipv4(2, &[0x22, 0, 0, 0, 0, 0, 0, 1])), |f| assert!(f.is_none()));
}

#[test]
fn ethernet_types() {
    let data = [1u8, 2, 3];
    frame_of(1, &ethernet(0x8808, &data), |f| {
        let NetworkPacket::Unknown { ethertype, data } = f.unwrap().into_packet() else { panic!("expected flow control") };
        assert_eq!(ethertype, 0x8808);
        assert_eq!(data, &[1, 2, 3]);
    });
    frame_of(1, &ethernet(0x3e43, &data), |f| {
        let NetworkPacket::Unknown { ethertype, .. } = f.unwrap().into_packet() else { panic!("expected flow control") };
        assert_eq!(ethertype, 0x8808);
    });
    frame_of(1, &ethernet(0x8100, &data), |f| assert!(f.is_none()));
    frame_of(1, &ethernet(0x0600, &data), |f| assert!(f.is_none()));
    frame_of(1, &ethernet(0x0040, &data), |f| assert!(f.is_none()));
    frame_of(1, &ethernet(0x9000, &data), |f| assert!(f.is_none()));
    frame_of(1, &[0u8; 13], |f| assert!(f.is_none()));
    frame_of(105, &ethernet(0x0800, &ipv4(17, &udp(&[]))), |f| assert!(f.is_none()));
}

#[test]
fn sll_addresses() {
    let sll = |addr_len: u16, arphrd: u16| {
        let mut s = vec![0, 0];
        s.extend_from_slice(&arphrd.to_be_bytes());
        s.extend_from_slice(&addr_len.to_be_bytes());
        s.extend_from_slice(&[0xaa, 0xbb, 0xcc, 0xdd, 0xee, 0xff, 0x11, 0x22]);
        s.extend_from_slice(&0x0800u16.to_be_bytes());
        s.extend_from_slice(&ipv4(17, &udp(&[])));
        s
    };
    frame_of(113, &sll(2, 1), |f| {
        let Some(Frame::SLL(f)) = f else { panic!("expected SLL") };
        assert_eq!(f.link_layer_addr, 0xaabb);
    });
    frame_of(113, &sll(12, 1), |f| {
        let Some(Frame::SLL(f)) = f else { panic!("expected SLL") };
        assert_eq!(f.link_layer_addr, 0xaabb_ccdd_eeff_1122);
        assert!(matches!(f.packet, NetworkPacket::IPv4(ref ip) if matches!(ip.protocol, Protocol::UDP)));
    });
    // With no meaningful byte, the address is 0.
    frame_of(113, &sll(0, 1), |f| {
        let Some(Frame::SLL(f)) = f else { panic!("expected SLL") };
        assert_eq!(f.link_layer_addr_length, 0);
        assert_eq!(f.link_layer_addr, 0);
    });
    frame_of(113, &sll(6, 772), |f| assert!(f.is_none()));
}

#[test]
fn arp_rejections() {
    let mut arp = vec![0x00, 0x01, 0x08, 0x06, 6, 4, 0x00, 0x02];
    arp.extend_from_slice(&[0u8; 20]);
    arp.extend_from_slice(&[0xde, 0xad]);
    frame_of(1, &ethernet(0x0806, &arp), |f| {
        let NetworkPacket::ARP(a) = f.unwrap().into_packet() else { panic!("expected ARP") };
        assert_eq!(a.payload, &[0xde, 0xad]);
    });
    let mut bad_op = arp.clone();
    bad_op[7] = 3;
    frame_of(1, &ethernet(0x0806, &bad_op), |f| assert!(f.is_none()));
    let mut bad_hw = arp.clone();
    bad_hw[1] = 6;
    frame_of(1, &ethernet(0x0806, &bad_hw), |f| assert!(f.is_none()));
    frame_of(1, &ethernet(0x0806, &arp[0..27]), |f| assert!(f.is_none()));
}

#[test]
fn parse_packet_and_frame_packet_agree() {
    let mut data = le_micro(1);
    let packet = ethernet(0x0800, &ipv4(17, &udp(&[5])));
    data.extend_from_slice(&record(false, 1, 2, packet.len() as u32, packet.len() as u32, &packet));
    let (header, mut packets) = parse_pcap(&data);
    let frame = parse_packet(&header, packets.next().unwrap());
    let by_ref = matches!(frame.packet(), NetworkPacket::IPv4(ip) if ip.ttl == 64);
    let by_value = matches!(frame.into_packet(), NetworkPacket::IPv4(ip) if ip.ttl == 64);
    assert!(by_ref && by_value);
}
