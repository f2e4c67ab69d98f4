use omp_launcher::codec::decode_extra_info;
use omp_launcher::codec::decode_info;
use omp_launcher::codec::decode_players;
use omp_launcher::codec::decode_rules;
use omp_launcher::codec::ExtraInfoPacket;
use omp_launcher::codec::InfoPacket;
use omp_launcher::codec::Player;
use omp_launcher::codec::RuleEntry;
use omp_launcher::error::QueryError;
use omp_launcher::wire::take_byte;
use omp_launcher::wire::take_bytes;
use omp_launcher::wire::take_i32;
use omp_launcher::wire::take_long_text;
use omp_launcher::wire::take_short_text;
use omp_launcher::wire::take_u16;
use omp_launcher::wire::take_u32;

fn utf8(bytes: Vec<u8>) -> String {
    String::from_utf8_lossy(&bytes).into_owned()
}

fn latin1(bytes: Vec<u8>) -> String {
    bytes.iter().map(|b| *b as char).collect()
}

fn long_text(text: &[u8]) -> Vec<u8> {
    let mut out = (text.len() as u32).to_le_bytes().to_vec();
    out.extend_from_slice(text);
    out
}

fn short_text(text: &[u8]) -> Vec<u8> {
    let mut out = vec![text.len() as u8];
    out.extend_from_slice(text);
    out
}

fn info_payload(
    password: u8,
    players: u16,
    max_players: u16,
    hostname: &[u8],
    gamemode: &[u8],
    language: &[u8],
) -> Vec<u8> {
    let mut out = vec![password];
    out.extend_from_slice(&players.to_le_bytes());
    out.extend_from_slice(&max_players.to_le_bytes());
    out.extend(long_text(hostname));
    out.extend(long_text(gamemode));
    out.extend(long_text(language));
    out
}

#[test]
fn take_u16_reads_low_byte_first() {
    assert_eq!(take_u16(&[0x34, 0x12, 0xff], 0), Some((0x1234, 2)));
    assert_eq!(take_u16(&[0xff, 0x34, 0x12], 1), Some((0x1234, 3)));
    assert_eq!(take_u16(&[0x00, 0x80], 0), Some((32768, 2)));
}

#[test]
fn take_u16_needs_two_bytes() {
    assert_eq!(take_u16(&[0x34], 0), None);
    assert_eq!(take_u16(&[0x34, 0x12], 1), None);
    assert_eq!(take_u16(&[0x34, 0x12], 2), None);
    assert_eq!(take_u16(&[0x34, 0x12], usize::MAX), None);
}

#[test]
fn take_u32_reads_low_byte_first() {
    assert_eq!(take_u32(&[0x78, 0x56, 0x34, 0x12], 0), Some((0x12345678, 4)));
    assert_eq!(take_u32(&[0, 0xff, 0xff, 0xff, 0xff], 1), Some((u32::MAX, 5)));
    assert_eq!(take_u32(&[1, 2, 3], 0), None);
}

#[test]
fn take_i32_reads_twos_complement() {
    assert_eq!(take_i32(&[0xff, 0xff, 0xff, 0xff], 0), Some((-1, 4)));
    assert_eq!(take_i32(&[0x00, 0x00, 0x00, 0x80], 0), Some((i32::MIN, 4)));
    assert_eq!(take_i32(&[0xff, 0xff, 0xff, 0x7f], 0), Some((i32::MAX, 4)));
    assert_eq!(take_i32(&[0xc0, 0xbd, 0xf0, 0xff], 0), Some((-1_000_000, 4)));
    assert_eq!(take_i32(&[1, 2, 3], 0), None);
}

#[test]
fn take_byte_and_bytes_stop_at_the_end() {
    assert_eq!(take_byte(&[7, 8], 1), Some((8, 2)));
    assert_eq!(take_byte(&[7, 8], 2), None);
    assert_eq!(take_bytes(&[1, 2, 3, 4], 1, 2), Some((vec![2, 3], 3)));
    assert_eq!(take_bytes(&[1, 2, 3, 4], 4, 0), Some((vec![], 4)));
    assert_eq!(take_bytes(&[1, 2, 3, 4], 3, 2), None);
    assert_eq!(take_bytes(&[1, 2, 3, 4], 5, 0), None);
    assert_eq!(take_bytes(&[1, 2, 3, 4], 1, usize::MAX), None);
}

#[test]
fn take_texts_follow_their_length() {
    assert_eq!(take_short_text(&[2, b'h', b'i', 9], 0), Some((b"hi".to_vec(), 3)));
    assert_eq!(take_short_text(&[3, b'h', b'i'], 0), None);
    assert_eq!(take_short_text(&[0], 0), Some((vec![], 1)));
    assert_eq!(take_long_text(&[2, 0, 0, 0, b'h', b'i', 9], 0), Some((b"hi".to_vec(), 6)));
    assert_eq!(take_long_text(&[3, 0, 0, 0, b'h', b'i'], 0), None);
    assert_eq!(take_long_text(&[0xff, 0xff, 0xff, 0xff, b'h'], 0), None);
    assert_eq!(take_long_text(&[2, 0, 0], 0), None);
}

#[test]
fn info_round_trip() {
    let payload = info_payload(1, 3, 50, b"Test", b"DM", b"EN");
    let info = decode_info(&payload, &utf8).unwrap();
    assert_eq!(
        info,
        InfoPacket {
            password: true,
            players: 3,
            max_players: 50,
            hostname: "Test".to_string(),
            gamemode: "DM".to_string(),
            language: "EN".to_string(),
        }
    );
}

#[test]
fn info_without_password_and_with_empty_texts() {
    let payload = info_payload(0, 1000, 65535, b"", b"", b"");
    let info = decode_info(&payload, &utf8).unwrap();
    assert!(!info.password);
    assert_eq!(info.players, 1000);
    assert_eq!(info.max_players, 65535);
    assert_eq!(info.hostname, "");
    assert_eq!(info.gamemode, "");
    assert_eq!(info.language, "");
}

#[test]
fn info_password_is_any_nonzero_byte() {
    let payload = info_payload(0x80, 0, 0, b"a", b"b", b"c");
    assert!(decode_info(&payload, &utf8).unwrap().password);
}

#[test]
fn info_ignores_what_follows_the_language() {
    let mut payload = info_payload(1, 3, 50, b"Test", b"DM", b"EN");
    payload.extend_from_slice(&[1, 2, 3]);
    assert_eq!(decode_info(&payload, &utf8).unwrap().language, "EN");
}

#[test]
fn info_hostname_longer_than_the_rest_is_malformed() {
    let mut payload = vec![1, 3, 0, 50, 0];
    payload.extend_from_slice(&100u32.to_le_bytes());
    payload.extend_from_slice(b"Test");
    assert_eq!(decode_info(&payload, &utf8), Err(QueryError::MalformedPacket));
}

#[test]
fn info_cut_short_anywhere_is_malformed() {
    let payload = info_payload(1, 3, 50, b"Test", b"DM", b"EN");
    for cut in 0..payload.len() {
        assert_eq!(decode_info(&payload[..cut], &utf8), Err(QueryError::MalformedPacket));
    }
}

#[test]
fn info_texts_go_through_the_transcoder() {
    let payload = info_payload(0, 0, 0, &[0xe9, 0x74, 0xe9], b"DM", b"EN");
    assert_eq!(decode_info(&payload, &latin1).unwrap().hostname, "\u{e9}t\u{e9}");
    assert_eq!(decode_info(&payload, &utf8).unwrap().hostname, "\u{fffd}t\u{fffd}");
}

#[test]
fn extra_info_without_a_logo() {
    let mut payload = long_text(b"discord.gg/x");
    payload.extend(long_text(b"light.png"));
    payload.extend(long_text(b"dark.png"));
    assert_eq!(
        decode_extra_info(&payload, &utf8),
        Ok(ExtraInfoPacket {
            discord_link: "discord.gg/x".to_string(),
            light_banner_url: "light.png".to_string(),
            dark_banner_url: "dark.png".to_string(),
            logo_url: None,
        })
    );
}

#[test]
fn extra_info_with_a_logo_byte_for_byte() {
    let logo: Vec<u8> = (0u8..=255).collect();
    let mut payload = long_text(b"d");
    payload.extend(long_text(b"l"));
    payload.extend(long_text(b"k"));
    payload.extend(long_text(&logo));
    let packet = decode_extra_info(&payload, &latin1).unwrap();
    let back: Vec<u8> = packet.logo_url.unwrap().chars().map(|c| c as u8).collect();
    assert_eq!(back, logo);
    assert_eq!(packet.discord_link, "d");
    assert_eq!(packet.light_banner_url, "l");
    assert_eq!(packet.dark_banner_url, "k");
}

#[test]
fn extra_info_with_an_empty_logo_is_set() {
    let mut payload = long_text(b"d");
    payload.extend(long_text(b"l"));
    payload.extend(long_text(b"k"));
    payload.extend(long_text(b""));
    assert_eq!(decode_extra_info(&payload, &utf8).unwrap().logo_url, Some(String::new()));
}

#[test]
fn extra_info_with_a_broken_logo_is_malformed() {
    let mut payload = long_text(b"d");
    payload.extend(long_text(b"l"));
    payload.extend(long_text(b"k"));
    payload.push(1);
    assert_eq!(decode_extra_info(&payload, &utf8), Err(QueryError::MalformedPacket));
    payload.extend_from_slice(&[0, 0, 0]);
    assert_eq!(decode_extra_info(&payload, &utf8), Err(QueryError::MalformedPacket));
}

#[test]
fn extra_info_cut_short_is_malformed() {
    let mut payload = long_text(b"discord");
    payload.extend(long_text(b"light"));
    payload.extend(long_text(b"dark"));
    for cut in 0..payload.len() {
        assert_eq!(decode_extra_info(&payload[..cut], &utf8), Err(QueryError::MalformedPacket));
    }
}

#[test]
fn players_keep_the_servers_order() {
    let mut payload = 3u16.to_le_bytes().to_vec();
    payload.extend(short_text(b"zed"));
    payload.extend_from_slice(&10i32.to_le_bytes());
    payload.extend(short_text(b"amy"));
    payload.extend_from_slice(&(-5i32).to_le_bytes());
    payload.extend(short_text(b""));
    payload.extend_from_slice(&i32::MAX.to_le_bytes());
    assert_eq!(
        decode_players(&payload, &utf8),
        Ok(vec![
            Player { name: "zed".to_string(), score: 10 },
            Player { name: "amy".to_string(), score: -5 },
            Player { name: String::new(), score: i32::MAX },
        ])
    );
}

#[test]
fn players_none() {
    assert_eq!(decode_players(&[0, 0], &utf8), Ok(vec![]));
    assert_eq!(decode_players(&[0, 0, 9, 9], &utf8), Ok(vec![]));
}

#[test]
fn players_fewer_than_counted_is_malformed() {
    let mut payload = 2u16.to_le_bytes().to_vec();
    payload.extend(short_text(b"zed"));
    payload.extend_from_slice(&10i32.to_le_bytes());
    assert_eq!(decode_players(&payload, &utf8), Err(QueryError::MalformedPacket));
    assert_eq!(decode_players(&[], &utf8), Err(QueryError::MalformedPacket));
    assert_eq!(decode_players(&[1], &utf8), Err(QueryError::MalformedPacket));
    assert_eq!(decode_players(&[1, 0, 3, b'a', b'b'], &utf8), Err(QueryError::MalformedPacket));
    assert_eq!(
        decode_players(&[1, 0, 1, b'a', 1, 0, 0], &utf8),
        Err(QueryError::MalformedPacket)
    );
}

#[test]
fn rules_keep_the_servers_order() {
    let mut payload = 2u16.to_le_bytes().to_vec();
    payload.extend(short_text(b"weather"));
    payload.extend(short_text(b"10"));
    payload.extend(short_text(b"lagcomp"));
    payload.extend(short_text(b"On"));
    assert_eq!(
        decode_rules(&payload, &utf8),
        Ok(vec![
            RuleEntry { name: "weather".to_string(), value: "10".to_string() },
            RuleEntry { name: "lagcomp".to_string(), value: "On".to_string() },
        ])
    );
}

#[test]
fn rules_cut_short_is_malformed() {
    let mut payload = 1u16.to_le_bytes().to_vec();
    payload.extend(short_text(b"weather"));
    payload.extend(short_text(b"10"));
    for cut in 0..payload.len() {
        assert_eq!(decode_rules(&payload[..cut], &utf8), Err(QueryError::MalformedPacket));
    }
    assert_eq!(decode_rules(&payload, &utf8).unwrap().len(), 1);
}

#[test]
fn rules_with_many_entries() {
    let mut payload = 300u16.to_le_bytes().to_vec();
    for i in 0..300u32 {
        payload.extend(short_text(format!("k{}", i).as_bytes()));
        payload.extend(short_text(format!("v{}", i).as_bytes()));
    }
    let rules = decode_rules(&payload, &utf8).unwrap();
    assert_eq!(rules.len(), 300);
    assert_eq!(rules[299], RuleEntry { name: "k299".to_string(), value: "v299".to_string() });
}
