use pakit::error::ErrorType;
use pakit::proto::EthType;
use pakit::utility::{
    count_groups, dec_octet_of, from_ethtype, hex_octet_of, ip_to_string, mac_to_string, parse_ip,
    parse_mac, same_bytes, split_text,
};

fn chars(s: &str) -> Vec<char> {
    s.chars().collect()
}

#[test]
fn parse_ip_reads_four_decimal_octets() {
    assert_eq!(parse_ip("192.168.1.100").unwrap(), [192, 168, 1, 100]);
    assert_eq!(parse_ip("0.0.0.0").unwrap(), [0, 0, 0, 0]);
    assert_eq!(parse_ip("255.255.255.255").unwrap(), [255, 255, 255, 255]);
    assert_eq!(parse_ip("001.02.3.004").unwrap(), [1, 2, 3, 4]);
}

#[test]
fn parse_ip_rejects_everything_else() {
    for bad in [
        "", "1.2.3", "1.2.3.4.5", "1.2.3.", ".1.2.3", "1..2.3", "256.1.1.1", "1.2.3.a", "1.2.3.-4",
        "1.2.3.+4", " 1.2.3.4", "1.2.3.4 ", "1.2.3.0004", "1,2,3,4",
    ] {
        let r = parse_ip(bad);
        assert!(r.is_err(), "{:?}", bad);
        assert_eq!(r.unwrap_err().err_type, ErrorType::ParseError);
    }
}

#[test]
fn parse_mac_reads_six_hex_octets() {
    assert_eq!(parse_mac("aa:aa:aa:aa:aa:aa").unwrap(), [0xaa; 6]);
    assert_eq!(parse_mac("00:36:76:53:ee:bd").unwrap(), [0x00, 0x36, 0x76, 0x53, 0xee, 0xbd]);
    assert_eq!(parse_mac("AC:5F:3e:47:B1:bc").unwrap(), [0xac, 0x5f, 0x3e, 0x47, 0xb1, 0xbc]);
    assert_eq!(parse_mac("09:0a:0F:f0:9a:ff").unwrap(), [0x09, 0x0a, 0x0f, 0xf0, 0x9a, 0xff]);
}

#[test]
fn parse_mac_rejects_everything_else() {
    for bad in [
        "", "aa:aa:aa:aa:aa", "aa:aa:aa:aa:aa:aa:aa", "aa:aa:aa:aa:aa:a", "aa:aa:aa:aa:aa:aaa",
        "aa:aa:aa:aa:aa:ag", "aa-aa-aa-aa-aa-aa", "aa:aa:aa:aa:aa:", ":aa:aa:aa:aa:aa",
        "aa:aa:aa:aa:aa:+a", "aa:aa:aa:aa:aa: a",
    ] {
        let r = parse_mac(bad);
        assert!(r.is_err(), "{:?}", bad);
        assert_eq!(r.unwrap_err().err_type, ErrorType::ParseError);
    }
}

#[test]
fn addresses_to_text() {
    assert_eq!(ip_to_string(&[192, 168, 1, 1]), "192.168.1.1");
    assert_eq!(ip_to_string(&[0, 9, 10, 255]), "0.9.10.255");
    assert_eq!(ip_to_string(&[100, 101, 99, 200, 7]), "100.101.99.200");
    assert_eq!(mac_to_string(&[0xaa; 6]), "aa:aa:aa:aa:aa:aa");
    assert_eq!(mac_to_string(&[0x00, 0x36, 0x76, 0x53, 0xee, 0xbd]), "00:36:76:53:ee:bd");
    assert_eq!(mac_to_string(&[0x0f]), "0f");
    assert_eq!(mac_to_string(&[]), "");
}

#[test]
fn text_roundtrip() {
    for ip in [[0u8, 0, 0, 0], [1, 22, 133, 254], [255, 255, 255, 255], [10, 100, 9, 99]] {
        assert_eq!(parse_ip(&ip_to_string(&ip)).unwrap(), ip);
    }
    for mac in [[0u8; 6], [0xff; 6], [0x01, 0x23, 0x45, 0x67, 0x89, 0xab]] {
        assert_eq!(parse_mac(&mac_to_string(&mac)).unwrap(), mac);
    }
}

#[test]
fn ethertype_lookup() {
    assert_eq!(from_ethtype(0x0806), EthType::Arp);
    assert_eq!(from_ethtype(0x0800), EthType::IPv4);
    assert_eq!(from_ethtype(0x86dd), EthType::Unknown);
    assert_eq!(from_ethtype(0), EthType::Unknown);
    assert_eq!(from_ethtype(1), EthType::Unknown);
}

#[test]
fn split_keeps_empty_pieces() {
    assert_eq!(split_text("", '.'), vec![chars("")]);
    assert_eq!(split_text("a", '.'), vec![chars("a")]);
    assert_eq!(split_text("a.b", '.'), vec![chars("a"), chars("b")]);
    assert_eq!(split_text(".a..b.", '.'), vec![chars(""), chars("a"), chars(""), chars("b"), chars("")]);
    assert_eq!(count_groups("aa:bb:cc", ':'), 3);
    assert_eq!(count_groups("", ':'), 1);
    assert_eq!(count_groups(":::", ':'), 4);
}

#[test]
fn octets() {
    assert_eq!(dec_octet_of(&chars("0")), Some(0));
    assert_eq!(dec_octet_of(&chars("255")), Some(255));
    assert_eq!(dec_octet_of(&chars("256")), None);
    assert_eq!(dec_octet_of(&chars("999")), None);
    assert_eq!(dec_octet_of(&chars("")), None);
    assert_eq!(dec_octet_of(&chars("1000")), None);
    assert_eq!(dec_octet_of(&chars("1a")), None);
    assert_eq!(dec_octet_of(&chars("042")), Some(42));
    assert_eq!(hex_octet_of(&chars("00")), Some(0));
    assert_eq!(hex_octet_of(&chars("fF")), Some(255));
    assert_eq!(hex_octet_of(&chars("a9")), Some(0xa9));
    assert_eq!(hex_octet_of(&chars("a")), None);
    assert_eq!(hex_octet_of(&chars("abc")), None);
    assert_eq!(hex_octet_of(&chars("g0")), None);
    assert_eq!(hex_octet_of(&chars("0g")), None);
}

#[test]
fn bytes_compare() {
    assert!(same_bytes(&[1, 2, 3], &[1, 2, 3]));
    assert!(!same_bytes(&[1, 2, 3], &[1, 2, 4]));
    assert!(!same_bytes(&[1, 2, 3], &[1, 2]));
    assert!(same_bytes(&[], &[]));
}
