//! One query session with a game server: whom it asks, the datagram that
//! asks for a facet, and what an answer holds.
//!
//! A [`Query`] owns no socket. [`Query::send`] gives the datagram to write and
//! [`Query::recv`] reads the datagram that came back; the caller moves the
//! bytes.

use crate::codec::decode_extra_info;
use crate::codec::decode_info;
use crate::codec::decode_players;
use crate::codec::decode_rules;
use crate::codec::extra_info_matches;
use crate::codec::extra_info_wire;
use crate::codec::info_matches;
use crate::codec::info_wire;
use crate::codec::players_match;
use crate::codec::players_wire;
use crate::codec::rules_match;
use crate::codec::rules_wire;
use crate::codec::takes_all;
use crate::codec::ExtraInfoPacket;
use crate::codec::InfoPacket;
use crate::codec::Player;
use crate::codec::RuleEntry;
use crate::error::QueryError;
use crate::text::all_digits;
use crate::text::digits_value;
use crate::text::digits_value_bound;
use crate::text::fields;
use crate::text::is_digit;
use crate::text::split;
use vstd::prelude::*;
use vstd::slice::slice_subrange;
use vstd::string::StringExecFns;
use vstd::string::StringSliceAdditionalSpecFns;

verus! {

/// The facets that a server can be asked for.
#[derive(Clone, Copy, Debug, PartialEq, Eq)]
pub enum RequestKind {
    Info,
    Players,
    Rules,
    ExtraInfo,
    Ping,
}

/// The byte that stands for a facet, in a request and in its answer:
/// `i`, `c`, `r`, `o`, `p`.
pub open spec fn opcode_of(kind: RequestKind) -> u8 {
    match kind {
        RequestKind::Info => 105,
        RequestKind::Players => 99,
        RequestKind::Rules => 114,
        RequestKind::ExtraInfo => 111,
        RequestKind::Ping => 112,
    }
}

/// The facet that the byte `tag` stands for.
pub open spec fn kind_of(tag: u8) -> Option<RequestKind> {
    if tag == 105 {
        Some(RequestKind::Info)
    } else if tag == 99 {
        Some(RequestKind::Players)
    } else if tag == 114 {
        Some(RequestKind::Rules)
    } else if tag == 111 {
        Some(RequestKind::ExtraInfo)
    } else if tag == 112 {
        Some(RequestKind::Ping)
    } else {
        None
    }
}

impl RequestKind {
    /// The facet's byte.
    pub fn opcode(self) -> (tag: u8)
        ensures
            tag == opcode_of(self),
    {
        match self {
            RequestKind::Info => 105,
            RequestKind::Players => 99,
            RequestKind::Rules => 114,
            RequestKind::ExtraInfo => 111,
            RequestKind::Ping => 112,
        }
    }

    /// The facet that `tag` stands for.
    pub fn from_opcode(tag: u8) -> (kind: Option<RequestKind>)
        ensures
            kind == kind_of(tag),
    {
        if tag == 105 {
            Some(RequestKind::Info)
        } else if tag == 99 {
            Some(RequestKind::Players)
        } else if tag == 114 {
            Some(RequestKind::Rules)
        } else if tag == 111 {
            Some(RequestKind::ExtraInfo)
        } else if tag == 112 {
            Some(RequestKind::Ping)
        } else {
            None
        }
    }
}

/// Every facet is found again from its byte.
pub proof fn opcode_round_trip(kind: RequestKind)
    ensures
        kind_of(opcode_of(kind)) == Some(kind),
{
}

/// An IPv4 address, first octet first.
#[derive(Clone, Copy, Debug, PartialEq, Eq)]
pub struct Address {
    pub a: u8,
    pub b: u8,
    pub c: u8,
    pub d: u8,
}

/// One address that a host name resolved to.
#[derive(Clone, Copy, Debug, PartialEq, Eq)]
pub enum HostAddress {
    V4(Address),
    V6,
}

/// Whether `f` writes an octet: one to three digits worth at most 255.
pub open spec fn is_octet_text(f: Seq<u8>) -> bool {
    1 <= f.len() <= 3 && all_digits(f) && digits_value(f) <= 255
}

/// Whether `b` is four octets with dots between them, and nothing else.
pub open spec fn dotted_quad(b: Seq<u8>) -> bool {
    let f = fields(b, 46);
    f.len() == 4 && is_octet_text(f[0]) && is_octet_text(f[1]) && is_octet_text(f[2])
        && is_octet_text(f[3])
}

/// Whether the octet `f` is written without a needless zero in front.
pub open spec fn is_plain(f: Seq<u8>) -> bool {
    f.len() == 1 || f[0] != 48
}

/// The address that the dotted quad `b` writes. A quad with a needless zero
/// in front of an octet writes none.
pub open spec fn literal_address(b: Seq<u8>) -> Option<Address> {
    let f = fields(b, 46);
    if dotted_quad(b) && is_plain(f[0]) && is_plain(f[1]) && is_plain(f[2]) && is_plain(f[3]) {
        Some(
            Address {
                a: digits_value(f[0]) as u8,
                b: digits_value(f[1]) as u8,
                c: digits_value(f[2]) as u8,
                d: digits_value(f[3]) as u8,
            },
        )
    } else {
        None
    }
}

/// The first IPv4 address among `resolved[at..]`.
pub open spec fn first_v4_from(resolved: Seq<HostAddress>, at: int) -> Option<Address>
    decreases resolved.len() - at,
{
    if at < 0 || at >= resolved.len() {
        None
    } else {
        match resolved[at] {
            HostAddress::V4(address) => Some(address),
            HostAddress::V6 => first_v4_from(resolved, at + 1),
        }
    }
}

/// The address that a session with `target` talks to: the one that `target`
/// writes if it is a dotted quad, else the first IPv4 address that it
/// resolved to.
pub open spec fn session_address(target: Seq<u8>, resolved: Seq<HostAddress>) -> Option<Address> {
    if dotted_quad(target) {
        literal_address(target)
    } else {
        first_v4_from(resolved, 0)
    }
}

fn octet(f: &[u8]) -> (r: Option<u8>)
    ensures
        r is Some <==> is_octet_text(f@),
        r matches Some(v) ==> v as int == digits_value(f@),
{
    let n: usize = f.len();
    if n < 1 || n > 3 {
        return None;
    }
    let mut value: u32 = 0;
    let mut at: usize = 0;
    while at < n
        invariant
            at <= n == f@.len(),
            n <= 3,
            all_digits(f@.take(at as int)),
            value as int == digits_value(f@.take(at as int)),
            value <= 999,
        decreases n - at,
    {
        let c: u8 = f[at];
        if c < 48 || c > 57 {
            proof {
                assert(!is_digit(f@[at as int]));
            }
            return None;
        }
        proof {
            let before = f@.take(at as int);
            let after = f@.take(at + 1);
            assert(after.drop_last() =~= before);
            assert(after.last() == c);
            assert forall|i: int| 0 <= i < after.len() implies is_digit(
                #[trigger] after[i],
            ) by {
                if i < before.len() {
                    assert(after[i] == before[i]);
                }
            }
            assert(value <= 99) by {
                digits_value_bound(before);
            }
        }
        value = value * 10 + (c as u32 - 48);
        at = at + 1;
    }
    proof {
        assert(f@.take(n as int) =~= f@);
    }
    if value <= 255 {
        Some(value as u8)
    } else {
        None
    }
}

/// Whether `target` is written as a dotted quad; a target that is not has to
/// be resolved before a session with it can be opened.
pub fn is_dotted_quad(target: &str) -> (r: bool)
    ensures
        r == dotted_quad(target.spec_bytes()),
{
    let parts = split(target.as_bytes(), 46);
    parts.len() == 4 && octet(parts[0].as_slice()).is_some() && octet(
        parts[1].as_slice(),
    ).is_some() && octet(parts[2].as_slice()).is_some() && octet(parts[3].as_slice()).is_some()
}

fn plain_octet(f: &[u8]) -> (r: Option<u8>)
    ensures
        r is Some <==> is_octet_text(f@) && is_plain(f@),
        r matches Some(v) ==> v as int == digits_value(f@),
{
    match octet(f) {
        Some(v) => if f.len() == 1 || f[0] != 48 {
            Some(v)
        } else {
            None
        },
        None => None,
    }
}

fn literal(target: &[u8]) -> (r: Option<Address>)
    requires
        dotted_quad(target@),
    ensures
        r == literal_address(target@),
{
    let parts = split(target, 46);
    match (
        plain_octet(parts[0].as_slice()),
        plain_octet(parts[1].as_slice()),
        plain_octet(parts[2].as_slice()),
        plain_octet(parts[3].as_slice()),
    ) {
        (Some(a), Some(b), Some(c), Some(d)) => Some(Address { a, b, c, d }),
        _ => None,
    }
}

fn first_v4(resolved: &[HostAddress]) -> (r: Option<Address>)
    ensures
        r == first_v4_from(resolved@, 0),
{
    let mut at: usize = 0;
    while at < resolved.len()
        invariant
            at <= resolved@.len(),
            first_v4_from(resolved@, at as int) == first_v4_from(resolved@, 0),
        decreases resolved@.len() - at,
    {
        match resolved[at] {
            HostAddress::V4(address) => {
                return Some(address);
            },
            HostAddress::V6 => {},
        }
        at = at + 1;
    }
    None
}

/// A query session: the server's address and port.
#[derive(Clone, Copy, Debug, PartialEq, Eq)]
pub struct Query {
    address: Address,
    port: u16,
}

/// The datagram that asks the server at `address` and `port` for `kind`:
/// `SAMP`, the four octets, the port with its low byte first, the facet's
/// byte, and four zero bytes more where the facet is the ping.
pub open spec fn request_bytes(address: Address, port: u16, kind: RequestKind) -> Seq<u8> {
    let head = seq![
        83u8,
        65u8,
        77u8,
        80u8,
        address.a,
        address.b,
        address.c,
        address.d,
        (port % 256) as u8,
        (port / 256) as u8,
        opcode_of(kind),
    ];
    if kind == RequestKind::Ping {
        head + seq![0u8, 0u8, 0u8, 0u8]
    } else {
        head
    }
}

/// The text of the error for a port that no socket address can hold.
pub open spec fn bad_port_text() -> Seq<char> {
    "Failed to connect to server: invalid port value"@
}

/// What an answer holds.
#[derive(Clone, Debug, PartialEq, Eq)]
pub enum Facet {
    Info(InfoPacket),
    Players(Vec<Player>),
    Rules(Vec<RuleEntry>),
    ExtraInfo(ExtraInfoPacket),
    /// The acknowledgement of a ping.
    Pong,
}

/// Where the type tag stands in an answer: behind `SAMP`, the address and
/// the port.
pub open spec fn tag_offset() -> int {
    10
}

/// The facet that the answer `datagram` says it holds.
pub open spec fn reply_kind(datagram: Seq<u8>) -> Option<RequestKind> {
    if datagram.len() > tag_offset() {
        kind_of(datagram[tag_offset()])
    } else {
        None
    }
}

/// What follows the type tag of an answer.
pub open spec fn reply_payload(datagram: Seq<u8>) -> Seq<u8> {
    datagram.subrange(tag_offset() + 1, datagram.len() as int)
}

/// Why the answer `datagram` cannot be read, if it cannot: `NoData` where it
/// is empty, ends before its type tag or has an unknown one,
/// `MalformedPacket` where a field of its payload runs past the end.
pub open spec fn reply_fault(datagram: Seq<u8>) -> Option<QueryError> {
    match reply_kind(datagram) {
        None => Some(QueryError::NoData),
        Some(RequestKind::Info) => if info_wire(reply_payload(datagram)) is Some {
            None
        } else {
            Some(QueryError::MalformedPacket)
        },
        Some(RequestKind::Players) => if players_wire(reply_payload(datagram)) is Some {
            None
        } else {
            Some(QueryError::MalformedPacket)
        },
        Some(RequestKind::Rules) => if rules_wire(reply_payload(datagram)) is Some {
            None
        } else {
            Some(QueryError::MalformedPacket)
        },
        Some(RequestKind::ExtraInfo) => if extra_info_wire(reply_payload(datagram)) is Some {
            None
        } else {
            Some(QueryError::MalformedPacket)
        },
        Some(RequestKind::Ping) => None,
    }
}

/// Whether `facet` is what the readable answer `datagram` holds, with its
/// byte strings transcoded.
pub open spec fn facet_matches<F: Fn(Vec<u8>) -> String>(
    transcode: &F,
    datagram: Seq<u8>,
    facet: Facet,
) -> bool {
    match facet {
        Facet::Info(packet) => reply_kind(datagram) == Some(RequestKind::Info) && info_matches(
            transcode,
            info_wire(reply_payload(datagram))->0,
            packet,
        ),
        Facet::Players(list) => reply_kind(datagram) == Some(RequestKind::Players)
            && players_match(transcode, players_wire(reply_payload(datagram))->0, list@),
        Facet::Rules(list) => reply_kind(datagram) == Some(RequestKind::Rules) && rules_match(
            transcode,
            rules_wire(reply_payload(datagram))->0,
            list@,
        ),
        Facet::ExtraInfo(packet) => reply_kind(datagram) == Some(RequestKind::ExtraInfo)
            && extra_info_matches(
            transcode,
            extra_info_wire(reply_payload(datagram))->0,
            packet,
        ),
        Facet::Pong => reply_kind(datagram) == Some(RequestKind::Ping),
    }
}

impl Query {
    /// The server's address.
    pub closed spec fn spec_address(&self) -> Address {
        self.address
    }

    /// The server's port.
    pub closed spec fn spec_port(&self) -> u16 {
        self.port
    }

    /// Opens a session with `target` on `port`.
    ///
    /// `resolved` is what `target` resolved to, in the resolver's order; it is
    /// looked at only where `target` is no dotted quad. The session fails with
    /// `Resolution` where there is no address to talk to, and else with
    /// `Socket` where the port is outside 0 to 65535.
    pub fn new(target: &str, port: i32, resolved: &[HostAddress]) -> (r: Result<Query, QueryError>)
        ensures
            match r {
                Ok(query) => session_address(target.spec_bytes(), resolved@) == Some(
                    query.spec_address(),
                ) && query.spec_port() as int == port as int,
                Err(QueryError::Resolution) => session_address(target.spec_bytes(), resolved@)
                    is None,
                Err(QueryError::Socket(detail)) => session_address(
                    target.spec_bytes(),
                    resolved@,
                ) is Some && !(0 <= port <= 65535) && detail@ == bad_port_text(),
                Err(_) => false,
            },
    {
        let found = if is_dotted_quad(target) {
            literal(target.as_bytes())
        } else {
            first_v4(resolved)
        };
        match found {
            None => Err(QueryError::Resolution),
            Some(address) => {
                if 0 <= port && port <= 65535 {
                    Ok(Query { address, port: port as u16 })
                } else {
                    Err(
                        QueryError::Socket(
                            String::from_str("Failed to connect to server: invalid port value"),
                        ),
                    )
                }
            },
        }
    }

    /// The server's address.
    pub fn address(&self) -> (address: Address)
        ensures
            address == self.spec_address(),
    {
        self.address
    }

    /// The server's port.
    pub fn port(&self) -> (port: u16)
        ensures
            port == self.spec_port(),
    {
        self.port
    }

    /// The datagram to write to ask for `kind`.
    pub fn send(&self, kind: RequestKind) -> (packet: Vec<u8>)
        ensures
            packet@ == request_bytes(self.spec_address(), self.spec_port(), kind),
    {
        let mut packet: Vec<u8> = Vec::new();
        packet.push(83);
        packet.push(65);
        packet.push(77);
        packet.push(80);
        packet.push(self.address.a);
        packet.push(self.address.b);
        packet.push(self.address.c);
        packet.push(self.address.d);
        packet.push((self.port % 256) as u8);
        packet.push((self.port / 256) as u8);
        packet.push(kind.opcode());
        match kind {
            RequestKind::Ping => {
                packet.push(0);
                packet.push(0);
                packet.push(0);
                packet.push(0);
            },
            _ => {},
        }
        assert(packet@ =~= request_bytes(self.spec_address(), self.spec_port(), kind));
        packet
    }

    /// Reads the answer `datagram`.
    ///
    /// The answer is taken for what its own type tag says, whatever was asked
    /// for; its header is not looked at.
    pub fn recv<F: Fn(Vec<u8>) -> String>(&self, datagram: &[u8], transcode: &F) -> (r: Result<
        Facet,
        QueryError,
    >)
        requires
            takes_all(transcode),
        ensures
            r is Ok <==> reply_fault(datagram@) is None,
            r matches Ok(facet) ==> facet_matches(transcode, datagram@, facet),
            r matches Err(error) ==> reply_fault(datagram@) == Some(error),
    {
        if datagram.len() <= 10 {
            return Err(QueryError::NoData);
        }
        let kind = match RequestKind::from_opcode(datagram[10]) {
            Some(kind) => kind,
            None => return Err(QueryError::NoData),
        };
        let payload = slice_subrange(datagram, 11, datagram.len());
        match kind {
            RequestKind::Info => match decode_info(payload, transcode) {
                Ok(packet) => Ok(Facet::Info(packet)),
                Err(error) => Err(error),
            },
            RequestKind::Players => match decode_players(payload, transcode) {
                Ok(list) => Ok(Facet::Players(list)),
                Err(error) => Err(error),
            },
            RequestKind::Rules => match decode_rules(payload, transcode) {
                Ok(list) => Ok(Facet::Rules(list)),
                Err(error) => Err(error),
            },
            RequestKind::ExtraInfo => match decode_extra_info(payload, transcode) {
                Ok(packet) => Ok(Facet::ExtraInfo(packet)),
                Err(error) => Err(error),
            },
            RequestKind::Ping => Ok(Facet::Pong),
        }
    }
}

} // verus!
