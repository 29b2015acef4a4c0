use pakit::dstructs::Packet;
use pakit::error::ErrorType;
use pakit::hdr::ip_proto;
use pakit::hdr::{ArpHdr, EthHdr, Hdr, IPv4Hdr};
use pakit::proto::{EthType, Proto};

#[test]
fn arp_create_parse() {
    let hdr = ArpHdr::from(
        "aa:aa:aa:aa:aa:aa",
        "192.168.1.100",
        "bb:bb:bb:bb:bb:bb",
        "192.168.1.101",
    )
    .unwrap();

    let raw_hdrs = hdr.create().unwrap();
    let hdr2 = ArpHdr::parse(raw_hdrs);
    assert_eq!(hdr, hdr2);
}

#[test]
fn eth_create_parse() {
    let hdr = EthHdr::from("aa:aa:aa:aa:aa:bb", "cc:cc:cc:cc:cc:dd", 1).unwrap();
    let raw_hdrs = hdr.create().unwrap();
    let hdr2 = EthHdr::parse(raw_hdrs);
    assert_eq!(hdr, hdr2);
}

#[test]
fn ipv4_create_parse() {
    let hdr = IPv4Hdr::from("192.168.1.1", "192.168.10.2", ip_proto::TCP).unwrap();
    let raw_hdrs = hdr.create().unwrap();
    let hdr2 = IPv4Hdr::parse(raw_hdrs);
    assert_eq!(hdr, hdr2);
}

#[test]
fn arp_fields_from_text() {
    let hdr = ArpHdr::from(
        "aa:aa:aa:aa:aa:aa",
        "192.168.1.100",
        "bb:bb:bb:bb:bb:bb",
        "192.168.1.101",
    )
    .unwrap();
    assert_eq!(hdr.hw_type, 1);
    assert_eq!(hdr.proto_type, 0x0800);
    assert_eq!(hdr.hw_addr_len, 6);
    assert_eq!(hdr.proto_addr_len, 4);
    assert_eq!(hdr.opr, 1);
    assert_eq!(hdr.src_hw_addr, [0xaa; 6]);
    assert_eq!(hdr.src_proto_addr, [192, 168, 1, 100]);
    assert_eq!(hdr.dst_hw_addr, [0xbb; 6]);
    assert_eq!(hdr.dst_proto_addr, [192, 168, 1, 101]);
}

#[test]
fn arp_wire_bytes() {
    let hdr = ArpHdr::from(
        "aa:aa:aa:aa:aa:aa",
        "192.168.1.100",
        "bb:bb:bb:bb:bb:bb",
        "192.168.1.101",
    )
    .unwrap();
    let bytes = hdr.create().unwrap().into_bytes().unwrap();
    let expected: Vec<u8> = vec![
        0x00, 0x01, 0x08, 0x00, 0x06, 0x04, 0x00, 0x01, 0xaa, 0xaa, 0xaa, 0xaa, 0xaa, 0xaa, 192,
        168, 1, 100, 0xbb, 0xbb, 0xbb, 0xbb, 0xbb, 0xbb, 192, 168, 1, 101,
    ];
    assert_eq!(bytes, expected);
}

#[test]
fn arp_parse_reads_fixed_offsets() {
    let raw: Vec<u8> = vec![
        0x12, 0x34, 0x56, 0x78, 0x9a, 0xbc, 0xde, 0xf0, 1, 2, 3, 4, 5, 6, 7, 8, 9, 10, 11, 12, 13,
        14, 15, 16, 17, 18, 19, 20, 0xff, 0xff,
    ];
    let hdr = ArpHdr::parse(Packet::from_bytes(&raw));
    assert_eq!(hdr.hw_type, 0x1234);
    assert_eq!(hdr.proto_type, 0x5678);
    assert_eq!(hdr.hw_addr_len, 0x9a);
    assert_eq!(hdr.proto_addr_len, 0xbc);
    assert_eq!(hdr.opr, 0xdef0);
    assert_eq!(hdr.src_hw_addr, [1, 2, 3, 4, 5, 6]);
    assert_eq!(hdr.src_proto_addr, [7, 8, 9, 10]);
    assert_eq!(hdr.dst_hw_addr, [11, 12, 13, 14, 15, 16]);
    assert_eq!(hdr.dst_proto_addr, [17, 18, 19, 20]);
}

#[test]
fn arp_set_reply_changes_the_operation_only() {
    let mut hdr = ArpHdr::from(
        "aa:aa:aa:aa:aa:aa",
        "192.168.1.100",
        "bb:bb:bb:bb:bb:bb",
        "192.168.1.101",
    )
    .unwrap();
    let before = hdr;
    hdr.set_arp_reply();
    assert_eq!(hdr.opr, 2);
    assert_eq!(hdr, ArpHdr { opr: 2, ..before });
    assert_ne!(hdr, before);
}

#[test]
fn arp_new_is_all_zero() {
    let hdr = ArpHdr::new();
    let bytes = hdr.create().unwrap().into_bytes().unwrap();
    assert_eq!(bytes, vec![0u8; 28]);
}

#[test]
fn arp_from_rejects_bad_text() {
    let bad_ip = ArpHdr::from("aa:aa:aa:aa:aa:aa", "192.168.1", "bb:bb:bb:bb:bb:bb", "192.168.1.101");
    assert_eq!(bad_ip.unwrap_err().err_type, ErrorType::ParseError);
    let bad_mac = ArpHdr::from("aa:aa:aa:aa:aa", "192.168.1.100", "bb:bb:bb:bb:bb:bb", "192.168.1.101");
    assert_eq!(bad_mac.unwrap_err().err_type, ErrorType::ParseError);
    let bad_octet =
        ArpHdr::from("aa:aa:aa:aa:aa:aa", "192.168.1.100", "bb:bb:bb:bb:bb:bb", "192.168.1.256");
    assert_eq!(bad_octet.unwrap_err().err_type, ErrorType::ParseError);
    let bad_digit =
        ArpHdr::from("aa:aa:aa:aa:aa:aa", "192.168.1.100", "bb:bb:bb:bb:bb:zz", "192.168.1.101");
    assert_eq!(bad_digit.unwrap_err().err_type, ErrorType::ParseError);
}

#[test]
fn eth_wire_bytes() {
    let hdr = EthHdr::from("aa:aa:aa:aa:aa:bb", "cc:cc:cc:cc:cc:dd", 1).unwrap();
    let bytes = hdr.create().unwrap().into_bytes().unwrap();
    let expected: Vec<u8> = vec![
        0xcc, 0xcc, 0xcc, 0xcc, 0xcc, 0xdd, 0xaa, 0xaa, 0xaa, 0xaa, 0xaa, 0xbb, 0x00, 0x01,
    ];
    assert_eq!(bytes, expected);
}

#[test]
fn eth_fields_and_data_type() {
    let hdr = EthHdr::from("aa:aa:aa:aa:aa:bb", "cc:cc:cc:cc:cc:dd", 0x0806).unwrap();
    assert_eq!(hdr.src_hw_addr, [0xaa, 0xaa, 0xaa, 0xaa, 0xaa, 0xbb]);
    assert_eq!(hdr.dst_hw_addr, [0xcc, 0xcc, 0xcc, 0xcc, 0xcc, 0xdd]);
    assert_eq!(hdr.eth_type.to_value(), 0x0806);
    assert_eq!(hdr.eth_type.get_width(), 16);
    assert_eq!(hdr.get_data_type(), EthType::Arp);
    assert_eq!(hdr.length(), 60);
    let ip = EthHdr::from_raw([1; 6], [2; 6], 0x0800);
    assert_eq!(ip.get_data_type(), EthType::IPv4);
    let other = EthHdr::from_raw([1; 6], [2; 6], 1);
    assert_eq!(other.get_data_type(), EthType::Unknown);
    assert_eq!(EthHdr::new().get_data_type(), EthType::Unknown);
    assert_eq!(EthHdr::new(), EthHdr::from_raw([0; 6], [0; 6], 0));
}

#[test]
fn eth_from_tells_shape_from_digits() {
    let short = EthHdr::from("aa:aa:aa:aa:aa", "cc:cc:cc:cc:cc:dd", 1);
    assert_eq!(short.unwrap_err().err_type, ErrorType::ConstructError);
    let long = EthHdr::from("aa:aa:aa:aa:aa:bb", "cc:cc:cc:cc:cc:dd:ee", 1);
    assert_eq!(long.unwrap_err().err_type, ErrorType::ConstructError);
    let digits = EthHdr::from("aa:aa:aa:aa:aa:bb", "cc:cc:cc:cc:cc:dg", 1);
    assert_eq!(digits.unwrap_err().err_type, ErrorType::ParseError);
    let one_digit = EthHdr::from("a:aa:aa:aa:aa:bb", "cc:cc:cc:cc:cc:dd", 1);
    assert_eq!(one_digit.unwrap_err().err_type, ErrorType::ParseError);
    let upper = EthHdr::from("AA:aa:Aa:aA:aa:BB", "cc:cc:cc:cc:cc:dd", 1).unwrap();
    assert_eq!(upper.src_hw_addr, [0xaa, 0xaa, 0xaa, 0xaa, 0xaa, 0xbb]);
}

#[test]
fn eth_equality_is_field_for_field() {
    let a = EthHdr::from_raw([1; 6], [2; 6], 3);
    assert_ne!(a, EthHdr::from_raw([1; 6], [2; 6], 4));
    assert_ne!(a, EthHdr::from_raw([1; 6], [9; 6], 3));
    assert_ne!(a, EthHdr::from_raw([9; 6], [2; 6], 3));
    assert_eq!(a, EthHdr::from_raw([1; 6], [2; 6], 3));
}

#[test]
fn ipv4_wire_bytes() {
    let hdr = IPv4Hdr::from("192.168.1.1", "192.168.10.2", ip_proto::TCP).unwrap();
    let bytes = hdr.create().unwrap().into_bytes().unwrap();
    let expected: Vec<u8> = vec![
        0x45, 0x00, 0x00, 0x00, 0x00, 0x00, 0x00, 0x00, 0x40, 0x06, 0x00, 0x00, 192, 168, 1, 1,
        192, 168, 10, 2,
    ];
    assert_eq!(bytes, expected);
    assert_eq!(hdr.length(), 65535);
}

#[test]
fn ipv4_field_widths() {
    let hdr = IPv4Hdr::new();
    assert_eq!(hdr.ver.get_width(), 4);
    assert_eq!(hdr.ihl.get_width(), 4);
    assert_eq!(hdr.tos.get_width(), 8);
    assert_eq!(hdr.total_len.get_width(), 16);
    assert_eq!(hdr.id.get_width(), 16);
    assert_eq!(hdr.flags.get_width(), 3);
    assert_eq!(hdr.frag_offset.get_width(), 13);
    assert_eq!(hdr.ttl.get_width(), 8);
    assert_eq!(hdr.proto.get_width(), 8);
    assert_eq!(hdr.hdr_checksum.get_width(), 16);
    assert_eq!(hdr.ver.to_value(), 4);
    assert_eq!(hdr.ihl.to_value(), 5);
    assert_eq!(hdr.ttl.to_value(), 64);
    assert_eq!(hdr.proto.to_value(), 0);
    assert_eq!(hdr.src_ip_addr, [0; 4]);
    assert_eq!(hdr.dst_ip_addr, [0; 4]);
}

#[test]
fn ipv4_parse_reads_fixed_offsets() {
    let raw: Vec<u8> = vec![
        0x46, 0x1c, 0x01, 0x02, 0xab, 0xcd, 0b0101_0000, 0x07, 0x3f, 0x11, 0xbe, 0xef, 10, 0, 0, 1,
        10, 0, 0, 2,
    ];
    let hdr = IPv4Hdr::parse(Packet::from_bytes(&raw));
    assert_eq!(hdr.ver.to_value(), 4);
    assert_eq!(hdr.ihl.to_value(), 6);
    assert_eq!(hdr.tos.to_value(), 0x1c);
    assert_eq!(hdr.total_len.to_value(), 0x0102);
    assert_eq!(hdr.id.to_value(), 0xabcd);
    assert_eq!(hdr.flags.to_value(), 0b010);
    assert_eq!(hdr.frag_offset.to_value(), 0x1007);
    assert_eq!(hdr.ttl.to_value(), 0x3f);
    assert_eq!(hdr.proto.to_value(), 0x11);
    assert_eq!(hdr.hdr_checksum.to_value(), 0xbeef);
    assert_eq!(hdr.src_ip_addr, [10, 0, 0, 1]);
    assert_eq!(hdr.dst_ip_addr, [10, 0, 0, 2]);
    let back = hdr.create().unwrap().into_bytes().unwrap();
    assert_eq!(back, raw);
}

#[test]
fn ipv4_from_rejects_bad_text() {
    let r = IPv4Hdr::from("192.168.1.1.5", "192.168.10.2", ip_proto::UDP);
    assert_eq!(r.unwrap_err().err_type, ErrorType::ParseError);
    let r = IPv4Hdr::from("192.168.1.1", "192.168.x.2", ip_proto::ICMP);
    assert_eq!(r.unwrap_err().err_type, ErrorType::ParseError);
}

#[test]
fn ip_protocol_numbers() {
    assert_eq!(ip_proto::ICMP, 0x01);
    assert_eq!(ip_proto::TCP, 0x06);
    assert_eq!(ip_proto::UDP, 0x11);
}

#[test]
fn get_wraps_in_the_variant() {
    let arp = ArpHdr::new();
    assert!(matches!(arp.get(), Proto::Arp(h) if h == arp));
    let eth = EthHdr::from_raw([1; 6], [2; 6], 3);
    assert!(matches!(eth.get(), Proto::Eth(h) if h == eth));
    let ip = IPv4Hdr::new();
    assert!(matches!(ip.get(), Proto::IPv4(h) if h == ip));
}

#[test]
fn unwrap_by_variant() {
    let arp = ArpHdr::new();
    let eth = EthHdr::new();
    let ip = IPv4Hdr::new();
    assert_eq!(arp.get().unwrap_arp().unwrap(), arp);
    assert_eq!(eth.get().unwrap_eth().unwrap(), eth);
    assert_eq!(ip.get().unwrap_ipv4().unwrap(), ip);
    assert_eq!(eth.get().unwrap_arp().unwrap_err().err_type, ErrorType::UnwrapHeaderError);
    assert_eq!(ip.get().unwrap_eth().unwrap_err().err_type, ErrorType::UnwrapHeaderError);
    assert_eq!(arp.get().unwrap_ipv4().unwrap_err().err_type, ErrorType::UnwrapHeaderError);
    assert_eq!(Proto::ICMP.unwrap_arp().unwrap_err().err_type, ErrorType::UnwrapHeaderError);
    assert_eq!(Proto::Unknown.unwrap_eth().unwrap_err().err_type, ErrorType::UnwrapHeaderError);
}

#[test]
fn eth_encapsulate_pads_to_sixty() {
    let arp = ArpHdr::from(
        "aa:aa:aa:aa:aa:aa",
        "192.168.1.100",
        "bb:bb:bb:bb:bb:bb",
        "192.168.1.101",
    )
    .unwrap();
    let eth = EthHdr::from("aa:aa:aa:aa:aa:bb", "cc:cc:cc:cc:cc:dd", 1).unwrap();
    let frame = eth.encapsulate(arp).unwrap();
    assert_eq!(frame.len(), 60);
    let mut expected = eth.create().unwrap().into_bytes().unwrap();
    expected.extend(arp.create().unwrap().into_bytes().unwrap());
    assert_eq!(expected.len(), 42);
    assert_eq!(&frame[..42], &expected[..]);
    assert_eq!(&frame[42..], &[0u8; 18][..]);
}

#[test]
fn ipv4_encapsulate_pads_to_the_largest_packet() {
    let ip = IPv4Hdr::from("192.168.1.1", "192.168.10.2", ip_proto::TCP).unwrap();
    let arp = ArpHdr::new();
    let packet = ip.encapsulate(arp).unwrap();
    assert_eq!(packet.len(), 65535);
    assert_eq!(&packet[..20], &ip.create().unwrap().into_bytes().unwrap()[..]);
    assert_eq!(&packet[20..48], &[0u8; 28][..]);
    assert!(packet[48..].iter().all(|b| *b == 0));
    assert_eq!(packet[0], 0x45);
}
