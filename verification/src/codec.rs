//! Decoding the four payloads that a game server answers with.
//!
//! Each decoder takes the bytes that follow the header and the type tag of an
//! answer. What the bytes hold is stated by a spec function on the bytes
//! alone (`info_wire`, `extra_info_wire`, `players_wire`, `rules_wire`); the
//! decoder returns that, with every byte string turned into text by the
//! transcoder the caller supplies, or `MalformedPacket` where a field runs
//! past the end of the payload.

use crate::error::QueryError;
use crate::wire::byte_at;
use crate::wire::i32_at;
use crate::wire::long_text_at;
use crate::wire::short_text_at;
use crate::wire::take_byte;
use crate::wire::take_i32;
use crate::wire::take_long_text;
use crate::wire::take_short_text;
use crate::wire::take_u16;
use crate::wire::le_u32;
use crate::wire::u16_at;
use vstd::prelude::*;

verus! {

/// A server's summary.
#[derive(Clone, Debug, Default, PartialEq, Eq)]
pub struct InfoPacket {
    pub password: bool,
    pub players: u16,
    pub max_players: u16,
    pub hostname: String,
    pub gamemode: String,
    pub language: String,
}

/// One connected player.
#[derive(Clone, Debug, Default, PartialEq, Eq)]
pub struct Player {
    pub name: String,
    pub score: i32,
}

/// A server's branding links. The logo is there only if the server sent one.
#[derive(Clone, Debug, Default, PartialEq, Eq)]
pub struct ExtraInfoPacket {
    pub discord_link: String,
    pub light_banner_url: String,
    pub dark_banner_url: String,
    pub logo_url: Option<String>,
}

/// One server rule.
#[derive(Clone, Debug, Default, PartialEq, Eq)]
pub struct RuleEntry {
    pub name: String,
    pub value: String,
}

/// An info payload as it stands in the bytes.
pub struct InfoWire {
    pub password: bool,
    pub players: int,
    pub max_players: int,
    pub hostname: Seq<u8>,
    pub gamemode: Seq<u8>,
    pub language: Seq<u8>,
}

/// A player entry as it stands in the bytes.
pub struct PlayerWire {
    pub name: Seq<u8>,
    pub score: int,
}

/// An extra-info payload as it stands in the bytes.
pub struct ExtraInfoWire {
    pub discord_link: Seq<u8>,
    pub light_banner_url: Seq<u8>,
    pub dark_banner_url: Seq<u8>,
    pub logo_url: Option<Seq<u8>>,
}

/// A rule entry as it stands in the bytes.
pub struct RuleWire {
    pub name: Seq<u8>,
    pub value: Seq<u8>,
}

/// Whether `text` is what the transcoder can give for exactly `bytes`.
pub open spec fn text_of<F: Fn(Vec<u8>) -> String>(transcode: &F, bytes: Seq<u8>, text: String) -> bool {
    exists|v: Vec<u8>| #[trigger] v@ == bytes && transcode.ensures((v,), text)
}

/// Whether the transcoder takes every byte string.
pub open spec fn takes_all<F: Fn(Vec<u8>) -> String>(transcode: &F) -> bool {
    forall|v: Vec<u8>| transcode.requires((v,))
}

fn to_text<F: Fn(Vec<u8>) -> String>(transcode: &F, bytes: Vec<u8>) -> (text: String)
    requires
        takes_all(transcode),
    ensures
        text_of(transcode, bytes@, text),
{
    let ghost given = bytes;
    let text = transcode(bytes);
    proof {
        assert(given@ == bytes@ && transcode.ensures((given,), text));
    }
    text
}

/// Three byte strings in a row from `at` on, each behind its `u32` length,
/// and the position just past the third.
pub open spec fn three_texts_at(b: Seq<u8>, at: int) -> Option<(Seq<u8>, Seq<u8>, Seq<u8>, int)> {
    match long_text_at(b, at) {
        Some((first, after_first)) => match long_text_at(b, after_first) {
            Some((second, after_second)) => match long_text_at(b, after_second) {
                Some((third, end)) => Some((first, second, third, end)),
                None => None,
            },
            None => None,
        },
        None => None,
    }
}

/// The info payload in `b`: a flag byte, two `u16`, then host name, game mode
/// and language, each behind its `u32` length. What follows is ignored.
pub open spec fn info_wire(b: Seq<u8>) -> Option<InfoWire> {
    match (byte_at(b, 0), u16_at(b, 1), u16_at(b, 3), three_texts_at(b, 5)) {
        (
            Some((flag, _)),
            Some((players, _)),
            Some((max_players, _)),
            Some((hostname, gamemode, language, _)),
        ) => Some(
            InfoWire { password: flag != 0, players, max_players, hostname, gamemode, language },
        ),
        _ => None,
    }
}

/// Whether `packet` is `wire` with its byte strings transcoded.
pub open spec fn info_matches<F: Fn(Vec<u8>) -> String>(
    transcode: &F,
    wire: InfoWire,
    packet: InfoPacket,
) -> bool {
    &&& packet.password == wire.password
    &&& packet.players as int == wire.players
    &&& packet.max_players as int == wire.max_players
    &&& text_of(transcode, wire.hostname, packet.hostname)
    &&& text_of(transcode, wire.gamemode, packet.gamemode)
    &&& text_of(transcode, wire.language, packet.language)
}

/// Decodes an info payload.
pub fn decode_info<F: Fn(Vec<u8>) -> String>(payload: &[u8], transcode: &F) -> (r: Result<
    InfoPacket,
    QueryError,
>)
    requires
        takes_all(transcode),
    ensures
        r is Ok <==> info_wire(payload@) is Some,
        r matches Ok(packet) ==> info_matches(transcode, info_wire(payload@)->0, packet),
        r matches Err(error) ==> error == QueryError::MalformedPacket,
{
    let (flag, at) = match take_byte(payload, 0) {
        Some(read) => read,
        None => return Err(QueryError::MalformedPacket),
    };
    let (players, at) = match take_u16(payload, at) {
        Some(read) => read,
        None => return Err(QueryError::MalformedPacket),
    };
    let (max_players, at) = match take_u16(payload, at) {
        Some(read) => read,
        None => return Err(QueryError::MalformedPacket),
    };
    let (hostname, at) = match take_long_text(payload, at) {
        Some(read) => read,
        None => return Err(QueryError::MalformedPacket),
    };
    let (gamemode, at) = match take_long_text(payload, at) {
        Some(read) => read,
        None => return Err(QueryError::MalformedPacket),
    };
    let (language, _) = match take_long_text(payload, at) {
        Some(read) => read,
        None => return Err(QueryError::MalformedPacket),
    };
    Ok(
        InfoPacket {
            password: flag != 0,
            players,
            max_players,
            hostname: to_text(transcode, hostname),
            gamemode: to_text(transcode, gamemode),
            language: to_text(transcode, language),
        },
    )
}

/// The extra-info payload in `b`: discord link, light banner and dark banner,
/// each behind its `u32` length, and a logo only if bytes are left after them.
pub open spec fn extra_info_wire(b: Seq<u8>) -> Option<ExtraInfoWire> {
    match three_texts_at(b, 0) {
        Some((discord_link, light_banner_url, dark_banner_url, rest)) => if rest == b.len() {
            Some(
                ExtraInfoWire { discord_link, light_banner_url, dark_banner_url, logo_url: None },
            )
        } else {
            match long_text_at(b, rest) {
                Some((logo, _)) => Some(
                    ExtraInfoWire {
                        discord_link,
                        light_banner_url,
                        dark_banner_url,
                        logo_url: Some(logo),
                    },
                ),
                None => None,
            }
        },
        None => None,
    }
}

/// Whether `packet` is `wire` with its byte strings transcoded.
pub open spec fn extra_info_matches<F: Fn(Vec<u8>) -> String>(
    transcode: &F,
    wire: ExtraInfoWire,
    packet: ExtraInfoPacket,
) -> bool {
    &&& text_of(transcode, wire.discord_link, packet.discord_link)
    &&& text_of(transcode, wire.light_banner_url, packet.light_banner_url)
    &&& text_of(transcode, wire.dark_banner_url, packet.dark_banner_url)
    &&& packet.logo_url is Some <==> wire.logo_url is Some
    &&& packet.logo_url matches Some(logo) ==> text_of(transcode, wire.logo_url->0, logo)
}

/// Decodes an extra-info payload.
pub fn decode_extra_info<F: Fn(Vec<u8>) -> String>(payload: &[u8], transcode: &F) -> (r: Result<
    ExtraInfoPacket,
    QueryError,
>)
    requires
        takes_all(transcode),
    ensures
        r is Ok <==> extra_info_wire(payload@) is Some,
        r matches Ok(packet) ==> extra_info_matches(
            transcode,
            extra_info_wire(payload@)->0,
            packet,
        ),
        r matches Err(error) ==> error == QueryError::MalformedPacket,
{
    let (discord, at) = match take_long_text(payload, 0) {
        Some(read) => read,
        None => return Err(QueryError::MalformedPacket),
    };
    let (light, at) = match take_long_text(payload, at) {
        Some(read) => read,
        None => return Err(QueryError::MalformedPacket),
    };
    let (dark, at) = match take_long_text(payload, at) {
        Some(read) => read,
        None => return Err(QueryError::MalformedPacket),
    };
    let logo_url = if at < payload.len() {
        match take_long_text(payload, at) {
            Some((logo, _)) => Some(to_text(transcode, logo)),
            None => return Err(QueryError::MalformedPacket),
        }
    } else {
        None
    };
    Ok(
        ExtraInfoPacket {
            discord_link: to_text(transcode, discord),
            light_banner_url: to_text(transcode, light),
            dark_banner_url: to_text(transcode, dark),
            logo_url,
        },
    )
}

/// `done` followed by `rest`, where there is a rest.
pub open spec fn followed_by<T>(done: Seq<T>, rest: Option<Seq<T>>) -> Option<Seq<T>> {
    match rest {
        Some(rest) => Some(done + rest),
        None => None,
    }
}

/// The player entry at `at`: a name behind its one-byte length, then the
/// score as an `i32`.
pub open spec fn player_at(b: Seq<u8>, at: int) -> Option<(PlayerWire, int)> {
    match short_text_at(b, at) {
        Some((name, after_name)) => match i32_at(b, after_name) {
            Some((score, next)) => Some((PlayerWire { name, score }, next)),
            None => None,
        },
        None => None,
    }
}

/// `count` player entries in a row from `at` on.
pub open spec fn players_from(b: Seq<u8>, at: int, count: nat) -> Option<Seq<PlayerWire>>
    decreases count,
{
    if count == 0 {
        Some(Seq::empty())
    } else {
        match player_at(b, at) {
            Some((first, next)) => followed_by(seq![first], players_from(b, next, (count - 1) as nat)),
            None => None,
        }
    }
}

/// The player list in `b`: a `u16` count, then that many entries, in the
/// server's order. What follows is ignored.
pub open spec fn players_wire(b: Seq<u8>) -> Option<Seq<PlayerWire>> {
    match u16_at(b, 0) {
        Some((count, at)) => players_from(b, at, count as nat),
        None => None,
    }
}

/// Whether `list` is `wire`, entry by entry, with the names transcoded.
pub open spec fn players_match<F: Fn(Vec<u8>) -> String>(
    transcode: &F,
    wire: Seq<PlayerWire>,
    list: Seq<Player>,
) -> bool {
    &&& list.len() == wire.len()
    &&& forall|i: int|
        0 <= i < list.len() ==> text_of(transcode, wire[i].name, (#[trigger] list[i]).name)
            && list[i].score as int == wire[i].score
}

/// Decodes a player list.
pub fn decode_players<F: Fn(Vec<u8>) -> String>(payload: &[u8], transcode: &F) -> (r: Result<
    Vec<Player>,
    QueryError,
>)
    requires
        takes_all(transcode),
    ensures
        r is Ok <==> players_wire(payload@) is Some,
        r matches Ok(list) ==> players_match(transcode, players_wire(payload@)->0, list@),
        r matches Err(error) ==> error == QueryError::MalformedPacket,
{
    let (count, first) = match take_u16(payload, 0) {
        Some(read) => read,
        None => return Err(QueryError::MalformedPacket),
    };
    let mut list: Vec<Player> = Vec::new();
    let mut at: usize = first;
    let mut i: u16 = 0;
    let ghost mut done: Seq<PlayerWire> = Seq::empty();
    proof {
        assert(followed_by(done, players_from(payload@, at as int, count as nat))
            =~= players_wire(payload@)) by {
            match players_from(payload@, at as int, count as nat) {
                Some(rest) => {
                    assert(done + rest =~= rest);
                },
                None => {},
            }
        }
    }
    while i < count
        invariant
            i <= count,
            takes_all(transcode),
            followed_by(done, players_from(payload@, at as int, (count - i) as nat))
                == players_wire(payload@),
            players_match(transcode, done, list@),
        decreases count - i,
    {
        let (name, after_name) = match take_short_text(payload, at) {
            Some(read) => read,
            None => return Err(QueryError::MalformedPacket),
        };
        let (score, next) = match take_i32(payload, after_name) {
            Some(read) => read,
            None => return Err(QueryError::MalformedPacket),
        };
        let ghost entry = PlayerWire { name: name@, score: score as int };
        let ghost before = done;
        let text = to_text(transcode, name);
        proof {
            done = before.push(entry);
            match players_from(payload@, next as int, (count - i - 1) as nat) {
                Some(rest) => {
                    assert(before + (seq![entry] + rest) =~= done + rest);
                },
                None => {},
            }
        }
        list.push(Player { name: text, score });
        at = next;
        i = i + 1;
    }
    proof {
        assert(done + Seq::<PlayerWire>::empty() =~= done);
    }
    Ok(list)
}

/// The rule entry at `at`: a name and a value, each behind its one-byte
/// length.
pub open spec fn rule_at(b: Seq<u8>, at: int) -> Option<(RuleWire, int)> {
    match short_text_at(b, at) {
        Some((name, after_name)) => match short_text_at(b, after_name) {
            Some((value, next)) => Some((RuleWire { name, value }, next)),
            None => None,
        },
        None => None,
    }
}

/// `count` rule entries in a row from `at` on.
pub open spec fn rules_from(b: Seq<u8>, at: int, count: nat) -> Option<Seq<RuleWire>>
    decreases count,
{
    if count == 0 {
        Some(Seq::empty())
    } else {
        match rule_at(b, at) {
            Some((first, next)) => followed_by(seq![first], rules_from(b, next, (count - 1) as nat)),
            None => None,
        }
    }
}

/// The rule table in `b`: a `u16` count, then that many entries, in the
/// server's order. What follows is ignored.
pub open spec fn rules_wire(b: Seq<u8>) -> Option<Seq<RuleWire>> {
    match u16_at(b, 0) {
        Some((count, at)) => rules_from(b, at, count as nat),
        None => None,
    }
}

/// Whether `list` is `wire`, entry by entry, with names and values
/// transcoded.
pub open spec fn rules_match<F: Fn(Vec<u8>) -> String>(
    transcode: &F,
    wire: Seq<RuleWire>,
    list: Seq<RuleEntry>,
) -> bool {
    &&& list.len() == wire.len()
    &&& forall|i: int|
        0 <= i < list.len() ==> text_of(transcode, wire[i].name, (#[trigger] list[i]).name)
            && text_of(transcode, wire[i].value, list[i].value)
}

/// Decodes a rule table.
pub fn decode_rules<F: Fn(Vec<u8>) -> String>(payload: &[u8], transcode: &F) -> (r: Result<
    Vec<RuleEntry>,
    QueryError,
>)
    requires
        takes_all(transcode),
    ensures
        r is Ok <==> rules_wire(payload@) is Some,
        r matches Ok(list) ==> rules_match(transcode, rules_wire(payload@)->0, list@),
        r matches Err(error) ==> error == QueryError::MalformedPacket,
{
    let (count, first) = match take_u16(payload, 0) {
        Some(read) => read,
        None => return Err(QueryError::MalformedPacket),
    };
    let mut list: Vec<RuleEntry> = Vec::new();
    let mut at: usize = first;
    let mut i: u16 = 0;
    let ghost mut done: Seq<RuleWire> = Seq::empty();
    proof {
        assert(followed_by(done, rules_from(payload@, at as int, count as nat)) =~= rules_wire(
            payload@,
        )) by {
            match rules_from(payload@, at as int, count as nat) {
                Some(rest) => {
                    assert(done + rest =~= rest);
                },
                None => {},
            }
        }
    }
    while i < count
        invariant
            i <= count,
            takes_all(transcode),
            followed_by(done, rules_from(payload@, at as int, (count - i) as nat)) == rules_wire(
                payload@,
            ),
            rules_match(transcode, done, list@),
        decreases count - i,
    {
        let (name, after_name) = match take_short_text(payload, at) {
            Some(read) => read,
            None => return Err(QueryError::MalformedPacket),
        };
        let (value, next) = match take_short_text(payload, after_name) {
            Some(read) => read,
            None => return Err(QueryError::MalformedPacket),
        };
        let ghost entry = RuleWire { name: name@, value: value@ };
        let ghost before = done;
        let name_text = to_text(transcode, name);
        let value_text = to_text(transcode, value);
        proof {
            done = before.push(entry);
            match rules_from(payload@, next as int, (count - i - 1) as nat) {
                Some(rest) => {
                    assert(before + (seq![entry] + rest) =~= done + rest);
                },
                None => {},
            }
        }
        list.push(RuleEntry { name: name_text, value: value_text });
        at = next;
        i = i + 1;
    }
    proof {
        assert(done + Seq::<RuleWire>::empty() =~= done);
    }
    Ok(list)
}

/// `n` as two bytes, least significant first.
#[verifier::opaque]
pub open spec fn u16_bytes(n: int) -> Seq<u8> {
    seq![(n % 256) as u8, (n / 256) as u8]
}

/// `n` as four bytes, least significant first.
#[verifier::opaque]
pub open spec fn u32_bytes(n: int) -> Seq<u8> {
    seq![
        (n % 256) as u8,
        ((n / 256) % 256) as u8,
        ((n / 65536) % 256) as u8,
        (n / 16777216) as u8,
    ]
}

/// `text` behind its length as a `u32`.
#[verifier::opaque]
pub open spec fn long_text_bytes(text: Seq<u8>) -> Seq<u8> {
    u32_bytes(text.len() as int) + text
}

/// The payload that writes `wire`; a set password flag is written as 1.
pub open spec fn info_bytes(wire: InfoWire) -> Seq<u8> {
    seq![if wire.password { 1u8 } else { 0u8 }] + u16_bytes(wire.players) + u16_bytes(
        wire.max_players,
    ) + long_text_bytes(wire.hostname) + long_text_bytes(wire.gamemode) + long_text_bytes(
        wire.language,
    )
}

/// The payload that writes `wire`; the logo is written only where there is
/// one.
pub open spec fn extra_info_bytes(wire: ExtraInfoWire) -> Seq<u8> {
    let head = long_text_bytes(wire.discord_link) + long_text_bytes(wire.light_banner_url)
        + long_text_bytes(wire.dark_banner_url);
    match wire.logo_url {
        Some(logo) => head + long_text_bytes(logo),
        None => head,
    }
}

/// A `u16` is read back from its two bytes, wherever they stand.
pub proof fn u16_is_read_back(before: Seq<u8>, n: int, after: Seq<u8>)
    requires
        0 <= n < 65536,
    ensures
        u16_at(before + u16_bytes(n) + after, before.len() as int) == Some(
            (n, before.len() as int + 2),
        ),
        u16_bytes(n).len() == 2,
{
    reveal(u16_bytes);
    let b = before + u16_bytes(n) + after;
    let at = before.len() as int;
    assert(b.subrange(at, at + 2) =~= u16_bytes(n));
}

/// A byte string is read back from behind its length, wherever it stands.
pub proof fn long_text_is_read_back(before: Seq<u8>, text: Seq<u8>, after: Seq<u8>)
    requires
        text.len() < 0x1_0000_0000,
    ensures
        long_text_at(before + long_text_bytes(text) + after, before.len() as int) == Some(
            (text, before.len() as int + 4 + text.len() as int),
        ),
        long_text_bytes(text).len() == 4 + text.len(),
{
    reveal(u32_bytes);
    reveal(long_text_bytes);
    let b = before + long_text_bytes(text) + after;
    let at = before.len() as int;
    let n = text.len() as int;
    assert(b.subrange(at, at + 4) =~= u32_bytes(n));
    assert(le_u32(u32_bytes(n)) == n);
    assert(b.subrange(at + 4, at + 4 + n) =~= text);
}

/// Joining byte strings does not depend on where one starts.
proof fn joined_either_way(a: Seq<u8>, b: Seq<u8>, c: Seq<u8>)
    ensures
        (a + b) + c == a + (b + c),
{
    assert((a + b) + c =~= a + (b + c));
}

/// Three byte strings in a row are read back, wherever they stand.
pub proof fn three_texts_are_read_back(
    before: Seq<u8>,
    first: Seq<u8>,
    second: Seq<u8>,
    third: Seq<u8>,
    after: Seq<u8>,
)
    requires
        first.len() < 0x1_0000_0000,
        second.len() < 0x1_0000_0000,
        third.len() < 0x1_0000_0000,
    ensures
        three_texts_at(
            before + long_text_bytes(first) + long_text_bytes(second) + long_text_bytes(third)
                + after,
            before.len() as int,
        ) == Some(
            (
                first,
                second,
                third,
                before.len() as int + 12 + first.len() as int + second.len() as int
                    + third.len() as int,
            ),
        ),
{
    let f = long_text_bytes(first);
    let s = long_text_bytes(second);
    let t = long_text_bytes(third);
    let b = before + f + s + t + after;
    joined_either_way(before + f + s, t, after);
    joined_either_way(before + f, s, t + after);
    long_text_is_read_back(before, first, s + (t + after));
    long_text_is_read_back(before + f, second, t + after);
    long_text_is_read_back(before + f + s, third, after);
}

/// An info payload is read back as it was written, whatever follows it.
pub proof fn info_is_read_back(wire: InfoWire, rest: Seq<u8>)
    requires
        0 <= wire.players < 65536,
        0 <= wire.max_players < 65536,
        wire.hostname.len() < 0x1_0000_0000,
        wire.gamemode.len() < 0x1_0000_0000,
        wire.language.len() < 0x1_0000_0000,
    ensures
        info_wire(info_bytes(wire) + rest) == Some(wire),
{
    let flag = seq![if wire.password { 1u8 } else { 0u8 }];
    let players = u16_bytes(wire.players);
    let max_players = u16_bytes(wire.max_players);
    let hostname = long_text_bytes(wire.hostname);
    let gamemode = long_text_bytes(wire.gamemode);
    let language = long_text_bytes(wire.language);
    let texts = hostname + gamemode + language + rest;
    let b = info_bytes(wire) + rest;
    u16_is_read_back(flag, wire.players, max_players + texts);
    u16_is_read_back(flag + players, wire.max_players, texts);
    assert(b == flag + players + max_players + hostname + gamemode + language + rest);
    assert(b == flag + players + max_players + texts) by {
        joined_either_way(flag + players + max_players + hostname + gamemode, language, rest);
        joined_either_way(flag + players + max_players + hostname, gamemode, language + rest);
        joined_either_way(flag + players + max_players, hostname, gamemode + (language + rest));
        joined_either_way(hostname + gamemode, language, rest);
        joined_either_way(hostname, gamemode, language + rest);
    }
    assert(u16_at(b, 1) == Some((wire.players, 3int))) by {
        joined_either_way(flag + players, max_players, texts);
        u16_is_read_back(flag, wire.players, max_players + texts);
    }
    assert(u16_at(b, 3) == Some((wire.max_players, 5int))) by {
        u16_is_read_back(flag + players, wire.max_players, texts);
    }
    assert(three_texts_at(b, 5) matches Some((hostname, gamemode, language, _)) && hostname
        == wire.hostname && gamemode == wire.gamemode && language == wire.language) by {
        three_texts_are_read_back(
            flag + players + max_players,
            wire.hostname,
            wire.gamemode,
            wire.language,
            rest,
        );
    }
    assert(b[0] == flag[0]);
}

/// An info payload whose host name is announced longer than what is left of
/// the payload is malformed.
pub proof fn overlong_hostname_is_malformed(b: Seq<u8>)
    requires
        b.len() >= 9,
        le_u32(b.subrange(5, 9)) > b.len() - 9,
    ensures
        info_wire(b) is None,
{
}

/// An extra-info payload is read back as it was written: without a logo where
/// it ends behind the dark banner, with the very bytes of the logo where a
/// fourth byte string follows.
pub proof fn extra_info_is_read_back(wire: ExtraInfoWire)
    requires
        wire.discord_link.len() < 0x1_0000_0000,
        wire.light_banner_url.len() < 0x1_0000_0000,
        wire.dark_banner_url.len() < 0x1_0000_0000,
        wire.logo_url matches Some(logo) ==> logo.len() < 0x1_0000_0000,
    ensures
        extra_info_wire(extra_info_bytes(wire)) == Some(wire),
{
    let none = Seq::<u8>::empty();
    let discord = long_text_bytes(wire.discord_link);
    let light = long_text_bytes(wire.light_banner_url);
    let dark = long_text_bytes(wire.dark_banner_url);
    let head = discord + light + dark;
    let tail = match wire.logo_url {
        Some(logo) => long_text_bytes(logo),
        None => none,
    };
    let b = extra_info_bytes(wire);
    long_text_is_read_back(none, wire.discord_link, none);
    long_text_is_read_back(none, wire.light_banner_url, none);
    long_text_is_read_back(none, wire.dark_banner_url, none);
    assert(none + discord == discord) by {
        assert(none + discord =~= discord);
    }
    assert(head + none == head) by {
        assert(head + none =~= head);
    }
    assert(b == none + discord + light + dark + tail);
    three_texts_are_read_back(
        none,
        wire.discord_link,
        wire.light_banner_url,
        wire.dark_banner_url,
        tail,
    );
    match wire.logo_url {
        Some(logo) => {
            assert(b == head + long_text_bytes(logo) + none) by {
                assert(b + none =~= b);
            }
            long_text_is_read_back(head, logo, none);
        },
        None => {},
    }
}

/// `text` behind its length as one byte.
#[verifier::opaque]
pub open spec fn short_text_bytes(text: Seq<u8>) -> Seq<u8> {
    seq![text.len() as u8] + text
}

/// `n` as four bytes in two's complement, least significant first.
#[verifier::opaque]
pub open spec fn i32_bytes(n: int) -> Seq<u8> {
    u32_bytes(
        if n < 0 {
            n + 0x1_0000_0000
        } else {
            n
        },
    )
}

/// The bytes that write one player entry.
pub open spec fn player_bytes(player: PlayerWire) -> Seq<u8> {
    short_text_bytes(player.name) + i32_bytes(player.score)
}

/// The bytes that write the entries of `list`, one after the other.
pub open spec fn player_list_bytes(list: Seq<PlayerWire>) -> Seq<u8>
    decreases list.len(),
{
    if list.len() == 0 {
        Seq::empty()
    } else {
        player_bytes(list[0]) + player_list_bytes(list.skip(1))
    }
}

/// The payload that writes the player list `list`.
pub open spec fn players_bytes(list: Seq<PlayerWire>) -> Seq<u8> {
    u16_bytes(list.len() as int) + player_list_bytes(list)
}

/// Whether a player entry can be written: the name's length fits a byte and
/// the score an `i32`.
pub open spec fn player_fits(player: PlayerWire) -> bool {
    player.name.len() < 256 && -0x8000_0000 <= player.score < 0x8000_0000
}

/// The bytes that write one rule entry.
pub open spec fn rule_bytes(rule: RuleWire) -> Seq<u8> {
    short_text_bytes(rule.name) + short_text_bytes(rule.value)
}

/// The bytes that write the entries of `list`, one after the other.
pub open spec fn rule_list_bytes(list: Seq<RuleWire>) -> Seq<u8>
    decreases list.len(),
{
    if list.len() == 0 {
        Seq::empty()
    } else {
        rule_bytes(list[0]) + rule_list_bytes(list.skip(1))
    }
}

/// The payload that writes the rule table `list`.
pub open spec fn rules_bytes(list: Seq<RuleWire>) -> Seq<u8> {
    u16_bytes(list.len() as int) + rule_list_bytes(list)
}

/// Whether a rule entry can be written: the lengths of its name and of its
/// value fit a byte each.
pub open spec fn rule_fits(rule: RuleWire) -> bool {
    rule.name.len() < 256 && rule.value.len() < 256
}

/// A byte string is read back from behind its one-byte length, wherever it
/// stands.
pub proof fn short_text_is_read_back(before: Seq<u8>, text: Seq<u8>, after: Seq<u8>)
    requires
        text.len() < 256,
    ensures
        short_text_at(before + short_text_bytes(text) + after, before.len() as int) == Some(
            (text, before.len() as int + 1 + text.len() as int),
        ),
        short_text_bytes(text).len() == 1 + text.len(),
{
    reveal(short_text_bytes);
    let b = before + short_text_bytes(text) + after;
    let at = before.len() as int;
    assert(b[at] == text.len() as u8);
    assert(b.subrange(at + 1, at + 1 + text.len()) =~= text);
}

/// An `i32` is read back from its four bytes, wherever they stand.
pub proof fn i32_is_read_back(before: Seq<u8>, n: int, after: Seq<u8>)
    requires
        -0x8000_0000 <= n < 0x8000_0000,
    ensures
        i32_at(before + i32_bytes(n) + after, before.len() as int) == Some(
            (n, before.len() as int + 4),
        ),
        i32_bytes(n).len() == 4,
{
    reveal(i32_bytes);
    reveal(u32_bytes);
    let b = before + i32_bytes(n) + after;
    let at = before.len() as int;
    assert(b.subrange(at, at + 4) =~= i32_bytes(n));
}

/// A player entry is read back, wherever it stands.
pub proof fn player_is_read_back(before: Seq<u8>, player: PlayerWire, after: Seq<u8>)
    requires
        player_fits(player),
    ensures
        player_at(before + player_bytes(player) + after, before.len() as int) == Some(
            (player, before.len() as int + player_bytes(player).len() as int),
        ),
{
    let name = short_text_bytes(player.name);
    let score = i32_bytes(player.score);
    joined_either_way(before, name, score);
    joined_either_way(before + name, score, after);
    joined_either_way(before, name, score + after);
    short_text_is_read_back(before, player.name, score + after);
    i32_is_read_back(before + name, player.score, after);
}

/// Player entries in a row are read back, wherever they stand.
pub proof fn player_list_is_read_back(before: Seq<u8>, list: Seq<PlayerWire>, after: Seq<u8>)
    requires
        forall|i: int| 0 <= i < list.len() ==> player_fits(#[trigger] list[i]),
    ensures
        players_from(
            before + player_list_bytes(list) + after,
            before.len() as int,
            list.len(),
        ) == Some(list),
    decreases list.len(),
{
    if list.len() == 0 {
        assert(list =~= Seq::<PlayerWire>::empty());
    } else {
        let first = list[0];
        let others = list.skip(1);
        let head = player_bytes(first);
        let tail = player_list_bytes(others);
        let b = before + player_list_bytes(list) + after;
        assert(b == before + head + tail + after) by {
            joined_either_way(before, head, tail);
        }
        assert(b == before + head + (tail + after)) by {
            joined_either_way(before + head, tail, after);
        }
        assert(player_fits(first));
        player_is_read_back(before, first, tail + after);
        assert forall|i: int| 0 <= i < others.len() implies player_fits(#[trigger] others[i]) by {
            assert(others[i] == list[i + 1]);
        }
        player_list_is_read_back(before + head, others, after);
        assert(seq![first] + others =~= list);
    }
}

/// A player list is read back as it was written, in its order, whatever
/// follows it.
pub proof fn players_are_read_back(list: Seq<PlayerWire>, rest: Seq<u8>)
    requires
        list.len() < 65536,
        forall|i: int| 0 <= i < list.len() ==> player_fits(#[trigger] list[i]),
    ensures
        players_wire(players_bytes(list) + rest) == Some(list),
{
    let none = Seq::<u8>::empty();
    let count = u16_bytes(list.len() as int);
    let b = players_bytes(list) + rest;
    assert(none + count == count) by {
        assert(none + count =~= count);
    }
    assert(b == none + count + (player_list_bytes(list) + rest)) by {
        joined_either_way(count, player_list_bytes(list), rest);
    }
    u16_is_read_back(none, list.len() as int, player_list_bytes(list) + rest);
    player_list_is_read_back(count, list, rest);
}

/// A rule entry is read back, wherever it stands.
pub proof fn rule_is_read_back(before: Seq<u8>, rule: RuleWire, after: Seq<u8>)
    requires
        rule_fits(rule),
    ensures
        rule_at(before + rule_bytes(rule) + after, before.len() as int) == Some(
            (rule, before.len() as int + rule_bytes(rule).len() as int),
        ),
{
    let name = short_text_bytes(rule.name);
    let value = short_text_bytes(rule.value);
    joined_either_way(before, name, value);
    joined_either_way(before + name, value, after);
    joined_either_way(before, name, value + after);
    short_text_is_read_back(before, rule.name, value + after);
    short_text_is_read_back(before + name, rule.value, after);
}

/// Rule entries in a row are read back, wherever they stand.
pub proof fn rule_list_is_read_back(before: Seq<u8>, list: Seq<RuleWire>, after: Seq<u8>)
    requires
        forall|i: int| 0 <= i < list.len() ==> rule_fits(#[trigger] list[i]),
    ensures
        rules_from(before + rule_list_bytes(list) + after, before.len() as int, list.len())
            == Some(list),
    decreases list.len(),
{
    if list.len() == 0 {
        assert(list =~= Seq::<RuleWire>::empty());
    } else {
        let first = list[0];
        let others = list.skip(1);
        let head = rule_bytes(first);
        let tail = rule_list_bytes(others);
        let b = before + rule_list_bytes(list) + after;
        assert(b == before + head + tail + after) by {
            joined_either_way(before, head, tail);
        }
        assert(b == before + head + (tail + after)) by {
            joined_either_way(before + head, tail, after);
        }
        assert(rule_fits(first));
        rule_is_read_back(before, first, tail + after);
        assert forall|i: int| 0 <= i < others.len() implies rule_fits(#[trigger] others[i]) by {
            assert(others[i] == list[i + 1]);
        }
        rule_list_is_read_back(before + head, others, after);
        assert(seq![first] + others =~= list);
    }
}

/// A rule table is read back as it was written, in its order, whatever
/// follows it.
pub proof fn rules_are_read_back(list: Seq<RuleWire>, rest: Seq<u8>)
    requires
        list.len() < 65536,
        forall|i: int| 0 <= i < list.len() ==> rule_fits(#[trigger] list[i]),
    ensures
        rules_wire(rules_bytes(list) + rest) == Some(list),
{
    let none = Seq::<u8>::empty();
    let count = u16_bytes(list.len() as int);
    let b = rules_bytes(list) + rest;
    assert(none + count == count) by {
        assert(none + count =~= count);
    }
    assert(b == none + count + (rule_list_bytes(list) + rest)) by {
        joined_either_way(count, rule_list_bytes(list), rest);
    }
    u16_is_read_back(none, list.len() as int, rule_list_bytes(list) + rest);
    rule_list_is_read_back(count, list, rest);
}

} // verus!
