use omp_launcher::codec::InfoPacket;
use omp_launcher::error::QueryError;
use omp_launcher::query::is_dotted_quad;
use omp_launcher::query::Address;
use omp_launcher::query::Facet;
use omp_launcher::query::HostAddress;
use omp_launcher::query::Query;
use omp_launcher::query::RequestKind;

fn utf8(bytes: Vec<u8>) -> String {
    String::from_utf8_lossy(&bytes).into_owned()
}

fn session() -> Query {
    Query::new("192.168.1.20", 7777, &[]).unwrap()
}

fn answer(tag: u8, payload: &[u8]) -> Vec<u8> {
    let mut out = b"SAMP".to_vec();
    out.extend_from_slice(&[192, 168, 1, 20, 0x61, 0x1e, tag]);
    out.extend_from_slice(payload);
    out
}

fn long_text(text: &[u8]) -> Vec<u8> {
    let mut out = (text.len() as u32).to_le_bytes().to_vec();
    out.extend_from_slice(text);
    out
}

#[test]
fn opcodes_are_the_five_letters() {
    assert_eq!(RequestKind::Info.opcode(), b'i');
    assert_eq!(RequestKind::Players.opcode(), b'c');
    assert_eq!(RequestKind::Rules.opcode(), b'r');
    assert_eq!(RequestKind::ExtraInfo.opcode(), b'o');
    assert_eq!(RequestKind::Ping.opcode(), b'p');
}

#[test]
fn opcodes_are_found_again() {
    for kind in [
        RequestKind::Info,
        RequestKind::Players,
        RequestKind::Rules,
        RequestKind::ExtraInfo,
        RequestKind::Ping,
    ] {
        assert_eq!(RequestKind::from_opcode(kind.opcode()), Some(kind));
    }
    assert_eq!(RequestKind::from_opcode(b'x'), None);
    assert_eq!(RequestKind::from_opcode(0), None);
    assert_eq!(RequestKind::from_opcode(b'I'), None);
}

#[test]
fn a_dotted_quad_is_taken_as_it_stands() {
    let query = Query::new("192.168.1.20", 7777, &[]).unwrap();
    assert_eq!(query.address(), Address { a: 192, b: 168, c: 1, d: 20 });
    assert_eq!(query.port(), 7777);
    let query = Query::new("0.0.0.0", 0, &[]).unwrap();
    assert_eq!(query.address(), Address { a: 0, b: 0, c: 0, d: 0 });
    let query = Query::new("255.255.255.255", 65535, &[]).unwrap();
    assert_eq!(query.address(), Address { a: 255, b: 255, c: 255, d: 255 });
    assert_eq!(query.port(), 65535);
}

#[test]
fn a_dotted_quad_does_not_look_at_what_was_resolved() {
    let other = HostAddress::V4(Address { a: 9, b: 9, c: 9, d: 9 });
    let query = Query::new("10.0.0.1", 7777, &[other]).unwrap();
    assert_eq!(query.address(), Address { a: 10, b: 0, c: 0, d: 1 });
}

#[test]
fn a_host_name_takes_its_first_ipv4_address() {
    let resolved = [
        HostAddress::V6,
        HostAddress::V4(Address { a: 1, b: 2, c: 3, d: 4 }),
        HostAddress::V4(Address { a: 5, b: 6, c: 7, d: 8 }),
    ];
    let query = Query::new("play.example.org", 7777, &resolved).unwrap();
    assert_eq!(query.address(), Address { a: 1, b: 2, c: 3, d: 4 });
}

#[test]
fn a_host_name_without_an_ipv4_address_is_a_resolution_error() {
    assert_eq!(Query::new("play.example.org", 7777, &[]), Err(QueryError::Resolution));
    assert_eq!(
        Query::new("play.example.org", 7777, &[HostAddress::V6, HostAddress::V6]),
        Err(QueryError::Resolution)
    );
    assert_eq!(Query::new("", 7777, &[]), Err(QueryError::Resolution));
}

#[test]
fn a_dotted_quad_with_a_needless_zero_is_a_resolution_error() {
    let other = [HostAddress::V4(Address { a: 9, b: 9, c: 9, d: 9 })];
    assert!(is_dotted_quad("01.2.3.4"));
    assert_eq!(Query::new("01.2.3.4", 7777, &other), Err(QueryError::Resolution));
    assert_eq!(Query::new("1.2.3.004", 7777, &other), Err(QueryError::Resolution));
    assert_eq!(Query::new("1.2.00.4", 7777, &other), Err(QueryError::Resolution));
}

#[test]
fn a_port_outside_its_range_is_a_socket_error() {
    let expected =
        Err(QueryError::Socket("Failed to connect to server: invalid port value".to_string()));
    assert_eq!(Query::new("1.2.3.4", 65536, &[]), expected);
    assert_eq!(Query::new("1.2.3.4", -1, &[]), expected);
    assert_eq!(Query::new("1.2.3.4", i32::MIN, &[]), expected);
    assert_eq!(Query::new("nowhere", -1, &[]), Err(QueryError::Resolution));
}

#[test]
fn dotted_quads() {
    for text in ["0.0.0.0", "1.2.3.4", "255.255.255.255", "249.199.99.9", "00.000.1.01", "099.1.1.1"]
    {
        assert!(is_dotted_quad(text), "{}", text);
    }
    for text in [
        "", "1.2.3", "1.2.3.4.5", "256.1.1.1", "1.2.3.260", "1.2.3.300", "1..3.4", ".1.2.3",
        "1.2.3.", "1.2.3.4 ", " 1.2.3.4", "1.2.3.4\n", "a.b.c.d", "1.2.3.-4", "1.2.3.+4",
        "0001.2.3.4", "1,2,3,4", "localhost", "1.2.3.\u{664}",
    ] {
        assert!(!is_dotted_quad(text), "{:?}", text);
    }
}

#[test]
fn request_for_info() {
    assert_eq!(
        session().send(RequestKind::Info),
        vec![b'S', b'A', b'M', b'P', 192, 168, 1, 20, 0x61, 0x1e, b'i']
    );
}

#[test]
fn request_for_the_other_facets() {
    let head = vec![b'S', b'A', b'M', b'P', 192, 168, 1, 20, 0x61, 0x1e];
    for (kind, tag) in [
        (RequestKind::Players, b'c'),
        (RequestKind::Rules, b'r'),
        (RequestKind::ExtraInfo, b'o'),
    ] {
        let mut expected = head.clone();
        expected.push(tag);
        assert_eq!(session().send(kind), expected);
    }
}

#[test]
fn request_for_a_ping_ends_in_four_zero_bytes() {
    assert_eq!(
        session().send(RequestKind::Ping),
        vec![b'S', b'A', b'M', b'P', 192, 168, 1, 20, 0x61, 0x1e, b'p', 0, 0, 0, 0]
    );
}

#[test]
fn request_port_has_its_low_byte_first() {
    let query = Query::new("1.2.3.4", 256, &[]).unwrap();
    assert_eq!(&query.send(RequestKind::Info)[8..10], &[0, 1]);
    let query = Query::new("1.2.3.4", 65535, &[]).unwrap();
    assert_eq!(&query.send(RequestKind::Info)[8..10], &[255, 255]);
    let query = Query::new("1.2.3.4", 255, &[]).unwrap();
    assert_eq!(&query.send(RequestKind::Info)[8..10], &[255, 0]);
}

#[test]
fn request_then_answer_round_trip() {
    let query = session();
    let request = query.send(RequestKind::Info);
    let mut datagram = request.clone();
    datagram.push(1);
    datagram.extend_from_slice(&3u16.to_le_bytes());
    datagram.extend_from_slice(&50u16.to_le_bytes());
    datagram.extend(long_text(b"Test"));
    datagram.extend(long_text(b"DM"));
    datagram.extend(long_text(b"EN"));
    assert_eq!(
        query.recv(&datagram, &utf8),
        Ok(Facet::Info(InfoPacket {
            password: true,
            players: 3,
            max_players: 50,
            hostname: "Test".to_string(),
            gamemode: "DM".to_string(),
            language: "EN".to_string(),
        }))
    );
}

#[test]
fn answer_with_an_overlong_hostname_is_malformed() {
    let mut payload = vec![1, 3, 0, 50, 0];
    payload.extend_from_slice(&5u32.to_le_bytes());
    payload.extend_from_slice(b"Test");
    assert_eq!(session().recv(&answer(b'i', &payload), &utf8), Err(QueryError::MalformedPacket));
}

#[test]
fn empty_answer_is_no_data() {
    assert_eq!(session().recv(&[], &utf8), Err(QueryError::NoData));
}

#[test]
fn answer_that_ends_before_its_tag_is_no_data() {
    let full = answer(b'p', &[]);
    for cut in 0..full.len() {
        assert_eq!(session().recv(&full[..cut], &utf8), Err(QueryError::NoData));
    }
}

#[test]
fn answer_with_an_unknown_tag_is_no_data() {
    assert_eq!(session().recv(&answer(b'x', &[1, 2, 3]), &utf8), Err(QueryError::NoData));
    assert_eq!(session().recv(&answer(0, &[]), &utf8), Err(QueryError::NoData));
}

#[test]
fn answer_to_a_ping_is_a_pong() {
    assert_eq!(session().recv(&answer(b'p', &[]), &utf8), Ok(Facet::Pong));
    assert_eq!(session().recv(&answer(b'p', &[9, 9, 9, 9]), &utf8), Ok(Facet::Pong));
}

#[test]
fn answer_is_read_by_its_own_tag() {
    assert_eq!(session().recv(&answer(b'c', &[0, 0]), &utf8), Ok(Facet::Players(vec![])));
    assert_eq!(session().recv(&answer(b'r', &[0, 0]), &utf8), Ok(Facet::Rules(vec![])));
    assert_eq!(session().recv(&answer(b'c', &[1, 0]), &utf8), Err(QueryError::MalformedPacket));
    assert_eq!(session().recv(&answer(b'r', &[]), &utf8), Err(QueryError::MalformedPacket));
    assert_eq!(session().recv(&answer(b'o', &[]), &utf8), Err(QueryError::MalformedPacket));
    assert_eq!(session().recv(&answer(b'i', &[]), &utf8), Err(QueryError::MalformedPacket));
}

#[test]
fn answer_with_extra_info() {
    let mut payload = long_text(b"d");
    payload.extend(long_text(b"l"));
    payload.extend(long_text(b"k"));
    payload.extend(long_text(b"logo"));
    match session().recv(&answer(b'o', &payload), &utf8) {
        Ok(Facet::ExtraInfo(packet)) => assert_eq!(packet.logo_url, Some("logo".to_string())),
        other => panic!("{:?}", other),
    }
}

#[test]
fn answer_header_is_not_looked_at() {
    let mut datagram = vec![0u8; 10];
    datagram.push(b'p');
    assert_eq!(session().recv(&datagram, &utf8), Ok(Facet::Pong));
}

#[test]
fn query_error_messages() {
    assert_eq!(QueryError::NoData.message(), "no_data");
    assert_eq!(QueryError::Timeout.message(), "deadline has elapsed");
    assert_eq!(QueryError::MalformedPacket.message(), "malformed_packet");
    assert_eq!(
        QueryError::Resolution.message(),
        "Invalid IP address: invalid IPv4 address syntax"
    );
    assert_eq!(QueryError::Socket("connection refused".to_string()).message(), "connection refused");
}
