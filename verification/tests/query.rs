use pakit::dstructs::Bits;
use pakit::error::ErrorType;
use pakit::hdr::ip_proto;
use pakit::hdr::{ArpHdr, ArpQuery, EthHdr, EthQuery, IPv4Hdr, IPv4Query};
use pakit::{AutoReply, Pdu, QueryHdr, ReplyAction, ReplyEvent, Rules};

fn request() -> ArpHdr {
    ArpHdr::from("aa:aa:aa:aa:aa:aa", "192.168.1.100", "bb:bb:bb:bb:bb:bb", "192.168.1.101")
        .unwrap()
}

fn some_arp_headers() -> Vec<ArpHdr> {
    let mut reply = request();
    reply.set_arp_reply();
    let mut odd = ArpHdr::new();
    odd.opr = 2;
    odd.src_hw_addr = [1, 2, 3, 4, 5, 6];
    vec![request(), reply, ArpHdr::new(), odd]
}

fn flip(pdu: Pdu) -> Pdu {
    let eth = pdu.headers.get(&2).unwrap().unwrap_eth().unwrap();
    let arp = pdu.headers.get(&3).unwrap().unwrap_arp().unwrap();
    let reply = ArpHdr {
        opr: 2,
        src_hw_addr: arp.dst_hw_addr,
        src_proto_addr: arp.dst_proto_addr,
        dst_hw_addr: arp.src_hw_addr,
        dst_proto_addr: arp.src_proto_addr,
        ..arp
    };
    Pdu::new().header(reply).header(EthHdr::from_raw(eth.dst_hw_addr, eth.src_hw_addr, 0x0806))
}

fn keep(pdu: Pdu) -> Pdu {
    pdu
}

fn stripped(pdu: Pdu) -> Pdu {
    let mut bare = Pdu::new().header(pdu.headers.get(&3).unwrap().unwrap_arp().unwrap());
    bare.buffer = vec![1, 2, 3];
    bare
}

fn request_frame() -> Vec<u8> {
    EthHdr::from("aa:aa:aa:aa:aa:aa", "ff:ff:ff:ff:ff:ff", 0x0806).unwrap().encapsulate(request()).unwrap()
}

fn requests_only() -> QueryHdr {
    let mut q = ArpQuery::new();
    q.opr = Some(Bits::from(1, 16).unwrap());
    QueryHdr::Arp(q)
}

#[test]
fn wildcard_matches_every_header() {
    for h in some_arp_headers() {
        assert!(ArpQuery::new() == h);
    }
    assert!(EthQuery::new() == EthHdr::new());
    assert!(EthQuery::new() == EthHdr::from_raw([1; 6], [2; 6], 0x0806));
    assert!(IPv4Query::new() == IPv4Hdr::new());
    assert!(IPv4Query::new() == IPv4Hdr::from("1.2.3.4", "5.6.7.8", ip_proto::TCP).unwrap());
}

#[test]
fn opcode_alone_matches_whatever_the_addresses() {
    let mut q = ArpQuery::new();
    q.opr = Some(Bits::from(2, 16).unwrap());
    for h in some_arp_headers() {
        assert_eq!(q == h, h.opr == 2);
    }
    let mut a = ArpHdr::from("01:02:03:04:05:06", "10.0.0.1", "0a:0b:0c:0d:0e:0f", "10.9.8.7").unwrap();
    assert!(!(q == a));
    a.set_arp_reply();
    assert!(q == a);
}

#[test]
fn one_field_of_each_kind() {
    let mut q = EthQuery::new();
    q.dst_hw_addr = Some([2; 6]);
    assert!(q == EthHdr::from_raw([1; 6], [2; 6], 7));
    assert!(q == EthHdr::from_raw([9; 6], [2; 6], 8));
    assert!(!(q == EthHdr::from_raw([1; 6], [3; 6], 7)));
    let mut q = IPv4Query::new();
    q.proto = Some(Bits::from(6, 8).unwrap());
    assert!(q == IPv4Hdr::from("1.2.3.4", "5.6.7.8", ip_proto::TCP).unwrap());
    assert!(!(q == IPv4Hdr::from("1.2.3.4", "5.6.7.8", ip_proto::UDP).unwrap()));
    let mut q = IPv4Query::new();
    q.src_ip_addr = Some([1, 2, 3, 4]);
    assert!(q == IPv4Hdr::from("1.2.3.4", "5.6.7.8", ip_proto::ICMP).unwrap());
    assert!(!(q == IPv4Hdr::from("4.3.2.1", "5.6.7.8", ip_proto::ICMP).unwrap()));
}

#[test]
fn wanted_numbers_ignore_width() {
    let mut q = ArpQuery::new();
    q.opr = Some(Bits::from(1, 3).unwrap());
    assert!(q == request());
    let mut q = EthQuery::new();
    q.eth_type = Some(Bits::from(0x0806, 32).unwrap());
    assert!(q == EthHdr::from_raw([1; 6], [2; 6], 0x0806));
}

#[test]
fn queries_from_text() {
    let q = ArpQuery::from(Some("aa:aa:aa:aa:aa:aa"), None, None, Some("192.168.1.101")).unwrap();
    assert_eq!(q.hw_type.unwrap().to_value(), 1);
    assert_eq!(q.proto_type.unwrap().to_value(), 0x0800);
    assert_eq!(q.hw_addr_len.unwrap().to_value(), 6);
    assert_eq!(q.proto_addr_len.unwrap().to_value(), 4);
    assert_eq!(q.opr.unwrap().to_value(), 1);
    assert_eq!(q.src_hw_addr, Some([0xaa; 6]));
    assert_eq!(q.src_proto_addr, None);
    assert_eq!(q.dst_hw_addr, None);
    assert_eq!(q.dst_proto_addr, Some([192, 168, 1, 101]));
    assert!(q == request());
    let mut reply = q;
    reply.set_arp_reply();
    assert_eq!(reply.opr.unwrap().to_value(), 2);
    assert_eq!(reply.opr.unwrap().get_width(), 16);
    assert!(!(reply == request()));
    assert_eq!(reply.src_hw_addr, q.src_hw_addr);
    let bad = ArpQuery::from(Some("aa:aa"), None, None, None);
    assert_eq!(bad.unwrap_err().err_type, ErrorType::ParseError);
    let bad = ArpQuery::from(None, Some("1.2.3"), None, None);
    assert_eq!(bad.unwrap_err().err_type, ErrorType::ParseError);

    let q = EthQuery::from(Some("aa:aa:aa:aa:aa:bb"), None, Some(0x0806)).unwrap();
    assert_eq!(q.src_hw_addr, Some([0xaa, 0xaa, 0xaa, 0xaa, 0xaa, 0xbb]));
    assert_eq!(q.dst_hw_addr, None);
    assert_eq!(q.eth_type.unwrap().to_value(), 0x0806);
    assert_eq!(q.eth_type.unwrap().get_width(), 16);
    let none = EthQuery::from(None, None, None).unwrap();
    assert!(none == EthQuery::new());
    let bad = EthQuery::from(Some("aa:aa:aa"), Some("zz:aa:aa:aa:aa:aa"), None);
    assert_eq!(bad.unwrap_err().err_type, ErrorType::ConstructError);
    let bad = EthQuery::from(Some("zz:aa:aa:aa:aa:aa"), Some("aa:aa"), None);
    assert_eq!(bad.unwrap_err().err_type, ErrorType::ParseError);
    let bad = EthQuery::from(None, Some("aa:aa:aa:aa:aa:a"), None);
    assert_eq!(bad.unwrap_err().err_type, ErrorType::ParseError);

    let q = IPv4Query::from(Some("1.2.3.4"), None, Some(ip_proto::UDP)).unwrap();
    assert_eq!(q.ver.unwrap().to_value(), 4);
    assert_eq!(q.ihl.unwrap().to_value(), 5);
    assert_eq!(q.ttl.unwrap().to_value(), 64);
    assert_eq!(q.flags.unwrap().get_width(), 3);
    assert_eq!(q.frag_offset.unwrap().get_width(), 13);
    assert_eq!(q.proto.unwrap().to_value(), 0x11);
    assert_eq!(q.src_ip_addr, Some([1, 2, 3, 4]));
    assert_eq!(q.dst_ip_addr, None);
    assert!(q == IPv4Hdr::from("1.2.3.4", "9.9.9.9", ip_proto::UDP).unwrap());
    assert!(IPv4Query::from(None, None, None).unwrap().proto.is_none());
    let bad = IPv4Query::from(None, Some("1.2.3.400"), None);
    assert_eq!(bad.unwrap_err().err_type, ErrorType::ParseError);
}

#[test]
fn queries_against_frames() {
    let eth = EthHdr::from_raw([1; 6], [2; 6], 0x0806);
    let frame = Pdu::new().header(request()).header(eth);
    assert!(ArpQuery::new().matches_pdu(&frame));
    assert!(EthQuery::new().matches_pdu(&frame));
    assert!(!IPv4Query::new().matches_pdu(&frame));
    assert!(QueryHdr::Arp(ArpQuery::new()).matches_pdu(&frame));
    assert!(QueryHdr::Eth(EthQuery::new()).matches_pdu(&frame));
    assert!(!QueryHdr::IPv4(IPv4Query::new()).matches_pdu(&frame));
    assert!(requests_only().matches_pdu(&frame));
    let empty = Pdu::new();
    assert!(!ArpQuery::new().matches_pdu(&empty));
    assert!(!EthQuery::new().matches_pdu(&empty));
    assert!(!IPv4Query::new().matches_pdu(&empty));
    let ip = Pdu::new().header(IPv4Hdr::new());
    assert!(IPv4Query::new().matches_pdu(&ip));
    assert!(!ArpQuery::new().matches_pdu(&ip));
    assert!(!EthQuery::new().matches_pdu(&ip));
}

#[test]
fn same_queries() {
    assert!(QueryHdr::Arp(ArpQuery::new()) == QueryHdr::Arp(ArpQuery::new()));
    assert!(QueryHdr::Arp(ArpQuery::new()) != QueryHdr::Eth(EthQuery::new()));
    assert!(QueryHdr::IPv4(IPv4Query::new()) != QueryHdr::Eth(EthQuery::new()));
    assert!(requests_only() != QueryHdr::Arp(ArpQuery::new()));
    assert!(requests_only() == requests_only());
    let mut narrow = ArpQuery::new();
    narrow.opr = Some(Bits::from(1, 1).unwrap());
    assert!(QueryHdr::Arp(narrow) == requests_only());
    let mut a = EthQuery::new();
    a.src_hw_addr = Some([1; 6]);
    let mut b = EthQuery::new();
    b.dst_hw_addr = Some([1; 6]);
    assert!(a != b);
    assert!(a == a);
}

#[test]
fn rules_keep_their_order_and_hold_a_query_once() {
    let mut rules: Rules<fn(Pdu) -> Pdu> = Rules::new();
    assert_eq!(rules.len(), 0);
    rules.add_rule(requests_only(), keep);
    rules.add_rule(QueryHdr::Arp(ArpQuery::new()), flip);
    rules.add_rule(QueryHdr::Eth(EthQuery::new()), keep);
    assert_eq!(rules.len(), 3);
    assert!(*rules.query(0) == requests_only());
    assert!(*rules.query(1) == QueryHdr::Arp(ArpQuery::new()));
    assert!(*rules.query(2) == QueryHdr::Eth(EthQuery::new()));
    assert!(*rules.callback(0) == keep as fn(Pdu) -> Pdu);
    rules.add_rule(requests_only(), flip);
    assert_eq!(rules.len(), 3);
    assert!(*rules.query(0) == requests_only());
    assert!(*rules.callback(0) == flip as fn(Pdu) -> Pdu);
    assert!(*rules.callback(1) == flip as fn(Pdu) -> Pdu);
    assert!(*rules.callback(2) == keep as fn(Pdu) -> Pdu);
}

#[test]
fn the_first_rule_that_matches_answers() {
    let frame = Pdu::parse(&request_frame());
    let mut rules: Rules<fn(Pdu) -> Pdu> = Rules::new();
    assert_eq!(rules.find(&frame), None);
    rules.add_rule(QueryHdr::IPv4(IPv4Query::new()), keep);
    assert_eq!(rules.find(&frame), None);
    rules.add_rule(QueryHdr::Eth(EthQuery::new()), keep);
    rules.add_rule(requests_only(), flip);
    assert_eq!(rules.find(&frame), Some(1));
    let mut other: Rules<fn(Pdu) -> Pdu> = Rules::new();
    other.add_rule(requests_only(), flip);
    other.add_rule(QueryHdr::Eth(EthQuery::new()), keep);
    assert_eq!(other.find(&frame), Some(0));
}

#[test]
fn reply_to_a_request() {
    let mut rules: Rules<fn(Pdu) -> Pdu> = Rules::new();
    rules.add_rule(requests_only(), flip);
    let reply = pakit::responder::reply_to(&rules, &request_frame()).unwrap();
    assert_eq!(reply.len(), 60);
    let read = Pdu::parse(&reply);
    let eth = read.headers.get(&2).unwrap().unwrap_eth().unwrap();
    let arp = read.headers.get(&3).unwrap().unwrap_arp().unwrap();
    assert_eq!(eth.src_hw_addr, [0xff; 6]);
    assert_eq!(eth.dst_hw_addr, [0xaa; 6]);
    assert_eq!(arp.opr, 2);
    assert_eq!(arp.src_hw_addr, [0xbb; 6]);
    assert_eq!(arp.src_proto_addr, [192, 168, 1, 101]);
    assert_eq!(arp.dst_hw_addr, [0xaa; 6]);
    assert_eq!(arp.dst_proto_addr, [192, 168, 1, 100]);
    assert_eq!(pakit::responder::reply_to(&rules, &reply), None);
    assert_eq!(pakit::responder::reply_to(&rules, &[1, 2, 3]), None);
}

#[test]
fn reply_goes_out_even_where_building_fails() {
    let mut rules: Rules<fn(Pdu) -> Pdu> = Rules::new();
    rules.add_rule(requests_only(), keep);
    let reply = pakit::responder::reply_to(&rules, &request_frame()).unwrap();
    assert_eq!(reply, request_frame());
    let mut rules: Rules<fn(Pdu) -> Pdu> = Rules::new();
    rules.add_rule(requests_only(), stripped);
    assert_eq!(pakit::responder::reply_to(&rules, &request_frame()), Some(vec![]));
    assert_eq!(pakit::responder::reply_bytes(Pdu::new()), Vec::<u8>::new());
}

#[test]
fn one_request_one_reply_then_stop() {
    let mut rules: Rules<fn(Pdu) -> Pdu> = Rules::new();
    rules.add_rule(requests_only(), flip);
    let mut inbound = vec![request_frame()];
    let mut sent: Vec<Vec<u8>> = Vec::new();
    let mut machine = AutoReply::new(Some(1));
    let mut action = machine.step(&rules, ReplyEvent::Ready);
    let mut steps = 0;
    loop {
        steps += 1;
        assert!(steps < 10);
        match action {
            ReplyAction::Stop => break,
            ReplyAction::Receive => {
                let frame = inbound.remove(0);
                action = machine.step(&rules, ReplyEvent::Received(&frame));
            }
            ReplyAction::Send(bytes) => {
                sent.push(bytes);
                action = machine.step(&rules, ReplyEvent::Ready);
            }
        }
    }
    assert_eq!(sent.len(), 1);
    assert_eq!(machine.sent(), 1);
    assert!(machine.is_finished());
    assert!(inbound.is_empty());
    let arp = Pdu::parse(&sent[0]).headers.get(&3).unwrap().unwrap_arp().unwrap();
    assert_eq!(arp.opr, 2);
    assert!(matches!(machine.step(&rules, ReplyEvent::Received(&request_frame())), ReplyAction::Stop));
    assert_eq!(machine.sent(), 1);
}

#[test]
fn frames_that_meet_no_rule_are_dropped() {
    let mut rules: Rules<fn(Pdu) -> Pdu> = Rules::new();
    rules.add_rule(requests_only(), flip);
    let mut machine = AutoReply::new(None);
    assert!(!machine.is_finished());
    assert!(matches!(machine.step(&rules, ReplyEvent::Ready), ReplyAction::Receive));
    let reply = EthHdr::from_raw([1; 6], [2; 6], 0x0806).encapsulate(some_arp_headers()[1]).unwrap();
    assert!(matches!(machine.step(&rules, ReplyEvent::Received(&reply)), ReplyAction::Receive));
    assert!(matches!(machine.step(&rules, ReplyEvent::Received(&[0u8; 5])), ReplyAction::Receive));
    assert_eq!(machine.sent(), 0);
    assert!(matches!(machine.step(&rules, ReplyEvent::Received(&request_frame())), ReplyAction::Send(_)));
    assert!(matches!(machine.step(&rules, ReplyEvent::Received(&request_frame())), ReplyAction::Send(_)));
    assert_eq!(machine.sent(), 2);
    assert!(!machine.is_finished());
}

#[test]
fn a_limit_of_zero_stops_at_once() {
    let rules: Rules<fn(Pdu) -> Pdu> = Rules::new();
    let mut machine = AutoReply::new(Some(0));
    assert!(machine.is_finished());
    assert!(matches!(machine.step(&rules, ReplyEvent::Ready), ReplyAction::Stop));
    assert_eq!(machine.sent(), 0);
}
