use flo_core::lan::decimal::{format_unsigned, parse_unsigned_max};
use flo_core::lan::error::{Base64DecodeError, BinDecodeError, Error};
use flo_core::lan::game_data::GameData;
use flo_core::lan::game_info::{GameInfo, GameInfoEntry, GameInfoMessage};

const SAMPLE_DATA: &str = "YidiJ2InYgAAAQNJBwEBoQHxSQFXMYt5TZthcXMvKTMprWNvb3V5Y2G7eS93M20BMScxMQEByeVvKddX/4+NjWFvjTkDbz8b+wMLHcMAAgAAAAnAQgCk7g==";

fn sample_data() -> GameData {
    GameData {
        name: b"melee".to_vec(),
        settings: vec![1, 3, 73, 7, 1, 1, 161],
        slots_total: 4,
        flags: 0x0042_c009,
        port: 6112,
    }
}

fn sample_info() -> GameInfo {
    GameInfo {
        message_id: 3,
        game_id: "12".to_string(),
        create_time: 1_600_000_000,
        secret: 4_000_000_000,
        name: "My Game".as_bytes().to_vec(),
        players_num: 1,
        players_max: 4,
        data: sample_data(),
    }
}

fn entry(key: &str, value: &str) -> GameInfoEntry {
    GameInfoEntry {
        key: key.to_string(),
        value: value.to_string(),
    }
}

fn value_of<'a>(message: &'a GameInfoMessage, key: &str) -> &'a str {
    &message
        .entries
        .iter()
        .find(|e| e.key == key)
        .unwrap()
        .value
}

fn set(message: &mut GameInfoMessage, key: &str, value: &str) {
    message
        .entries
        .iter_mut()
        .find(|e| e.key == key)
        .unwrap()
        .value = value.to_string();
}

fn remove(message: &mut GameInfoMessage, key: &str) {
    message.entries.retain(|e| e.key != key);
}

fn invalid(result: Result<GameInfo, Error>) -> &'static str {
    match result {
        Err(Error::InvalidGameInfo(text)) => text,
        other => panic!("unexpected result: {:?}", other),
    }
}

#[test]
fn test_decode_gamedata_2() {
    let bytes = base64::decode(SAMPLE_DATA).unwrap();
    let data = GameData::decode(bytes.as_slice()).unwrap();
    println!("{:#?}", data);
    assert_eq!(data.name, b"b'b'b'b".to_vec());
    assert_eq!(data.settings, bytes[9..77].to_vec());
    assert_eq!(data.slots_total, 2);
    assert_eq!(data.flags, 0x0042_c009);
    assert_eq!(data.port, 0xeea4);
    assert!(data.is_valid());
    assert_eq!(data.encode_to_bytes(), bytes);
}

#[test]
fn game_data_is_laid_out_least_significant_byte_first() {
    let data = GameData {
        name: b"ab".to_vec(),
        settings: vec![9, 8],
        slots_total: 0x0102_0304,
        flags: 0xa0b0_c0d0,
        port: 0x1234,
    };
    assert_eq!(
        data.encode_to_bytes(),
        vec![
            b'a', b'b', 0, 0, 9, 8, 0, 0x04, 0x03, 0x02, 0x01, 0xd0, 0xc0, 0xb0, 0xa0, 0x34, 0x12
        ]
    );
}

#[test]
fn game_data_round_trips_and_ignores_what_follows() {
    let data = sample_data();
    let mut bytes = data.encode_to_bytes();
    assert_eq!(GameData::decode(&bytes), Ok(data.clone()));
    bytes.extend_from_slice(&[1, 2, 3]);
    assert_eq!(GameData::decode(&bytes), Ok(data));

    let empty = GameData {
        name: vec![],
        settings: vec![],
        slots_total: 0,
        flags: u32::MAX,
        port: u16::MAX,
    };
    assert_eq!(GameData::decode(&empty.encode_to_bytes()), Ok(empty));
}

#[test]
fn truncated_game_data_is_incomplete() {
    let bytes = sample_data().encode_to_bytes();
    for len in 0..bytes.len() {
        assert_eq!(
            GameData::decode(&bytes[..len]),
            Err(BinDecodeError::Incomplete),
            "length {}",
            len
        );
    }
    assert_eq!(GameData::decode(b"name"), Err(BinDecodeError::Incomplete));
}

#[test]
fn game_data_with_wrong_fixed_byte_fails() {
    let mut bytes = sample_data().encode_to_bytes();
    bytes[6] = 1;
    assert_eq!(GameData::decode(&bytes), Err(BinDecodeError::Failure));
}

#[test]
fn game_data_with_zero_byte_in_name_is_not_valid() {
    let mut data = sample_data();
    assert!(data.is_valid());
    data.name = vec![b'a', 0, b'b'];
    assert!(!data.is_valid());
    let mut data = sample_data();
    data.settings.push(0);
    assert!(!data.is_valid());
}

#[test]
fn numbers_are_written_in_decimal() {
    assert_eq!(format_unsigned(0), "0");
    assert_eq!(format_unsigned(7), "7");
    assert_eq!(format_unsigned(10), "10");
    assert_eq!(format_unsigned(4_000_000_000), "4000000000");
    assert_eq!(format_unsigned(u64::MAX), "18446744073709551615");
}

#[test]
fn numbers_are_read_as_the_standard_parser_reads_them() {
    let cases = [
        "", "+", "-", "0", "+0", "-0", "7", "+7", "007", "255", "256", "+255", "2 5", " 25", "25 ",
        "1_0", "0x10", "++1", "1+", "４２", "99999999999999999999999", "18446744073709551615",
        "18446744073709551616", "4294967295", "4294967296",
    ];
    for text in cases {
        assert_eq!(
            parse_unsigned_max(text, 255),
            text.parse::<u8>().ok().map(u64::from),
            "{:?} as u8",
            text
        );
        assert_eq!(
            parse_unsigned_max(text, u32::MAX as u64),
            text.parse::<u32>().ok().map(u64::from),
            "{:?} as u32",
            text
        );
        assert_eq!(
            parse_unsigned_max(text, u64::MAX),
            text.parse::<u64>().ok(),
            "{:?} as u64",
            text
        );
    }
    assert_eq!(parse_unsigned_max("255", 255), Some(255));
    assert_eq!(parse_unsigned_max("256", 255), None);
}

#[test]
fn game_info_is_written_as_ten_entries() {
    let info = sample_info();
    let message = info.encode_to_bytes();
    assert_eq!(message.name, "My Game");
    assert_eq!(message.message_id, 3);
    let keys: Vec<&str> = message.entries.iter().map(|e| e.key.as_str()).collect();
    assert_eq!(
        keys,
        vec![
            "players_num",
            "_name",
            "players_max",
            "game_create_time",
            "_type",
            "_subtype",
            "game_secret",
            "game_data",
            "game_id",
            "_flags",
        ]
    );
    assert_eq!(value_of(&message, "players_num"), "1");
    assert_eq!(value_of(&message, "_name"), "My Game");
    assert_eq!(value_of(&message, "players_max"), "4");
    assert_eq!(value_of(&message, "game_create_time"), "1600000000");
    assert_eq!(value_of(&message, "_type"), "1");
    assert_eq!(value_of(&message, "_subtype"), "0");
    assert_eq!(value_of(&message, "game_secret"), "4000000000");
    assert_eq!(
        value_of(&message, "game_data"),
        base64::encode(info.data.encode_to_bytes())
    );
    assert_eq!(value_of(&message, "game_id"), "12");
    assert_eq!(value_of(&message, "_flags"), "0");
}

#[test]
fn game_data_entry_is_padded_standard_base64() {
    let mut info = sample_info();
    info.data = GameData::decode(&base64::decode(SAMPLE_DATA).unwrap()).unwrap();
    let message = info.encode_to_bytes();
    assert_eq!(value_of(&message, "game_data"), SAMPLE_DATA);
}

#[test]
fn game_info_round_trips() {
    let info = sample_info();
    let message = info.encode_to_bytes();
    assert_eq!(GameInfo::decode_bytes(&message).unwrap(), info);

    let mut info = sample_info();
    info.create_time = 0;
    info.secret = 0;
    info.players_num = 255;
    info.players_max = 0;
    info.name = "игра".as_bytes().to_vec();
    info.game_id = String::new();
    info.message_id = -1;
    let message = info.encode_to_bytes();
    assert_eq!(GameInfo::decode_bytes(&message).unwrap(), info);
}

#[test]
fn name_that_is_not_utf8_is_written_with_replacements() {
    let mut info = sample_info();
    info.name = vec![b'a', 0xff, b'b'];
    let message = info.encode_to_bytes();
    assert_eq!(message.name, "a\u{fffd}b");
    assert_eq!(value_of(&message, "_name"), "a\u{fffd}b");
    let back = GameInfo::decode_bytes(&message).unwrap();
    assert_eq!(back.name, "a\u{fffd}b".as_bytes().to_vec());
}

#[test]
fn the_last_of_two_entries_with_one_key_counts() {
    let mut message = sample_info().encode_to_bytes();
    message.entries.push(entry("players_num", "3"));
    message.entries.insert(0, entry("game_id", "first"));
    let info = GameInfo::decode_bytes(&message).unwrap();
    assert_eq!(info.players_num, 3);
    assert_eq!(info.game_id, "12");
}

#[test]
fn missing_entries_are_named() {
    let keys = [
        ("game_data", "no `game_data` entry"),
        ("game_id", "no `game_id` entry"),
        ("game_secret", "no `game_secret` entry"),
        ("game_create_time", "no `game_create_time` entry"),
        ("players_num", "no `players_num` entry"),
        ("players_max", "no `players_max` entry"),
    ];
    for (key, text) in keys {
        let mut message = sample_info().encode_to_bytes();
        remove(&mut message, key);
        assert_eq!(invalid(GameInfo::decode_bytes(&message)), text);
    }
    // The entries that are written but never read may be missing.
    let mut message = sample_info().encode_to_bytes();
    for key in ["_name", "_type", "_subtype", "_flags"] {
        remove(&mut message, key);
    }
    assert_eq!(GameInfo::decode_bytes(&message).unwrap(), sample_info());
}

#[test]
fn entries_that_cannot_be_read_are_named() {
    let cases = [
        ("game_secret", "4294967296", "invalid game_secret"),
        ("game_secret", "x", "invalid game_secret"),
        (
            "game_create_time",
            "",
            "invalid game create timestamp: invalid format",
        ),
        (
            "game_create_time",
            "18446744073709551616",
            "invalid game create timestamp: invalid format",
        ),
        (
            "game_create_time",
            "9223372036854775808",
            "invalid game create timestamp: overflow",
        ),
        ("players_num", "256", "invalid `players_num`"),
        ("players_num", "-1", "invalid `players_num`"),
        ("players_max", "1.5", "invalid `players_max`"),
    ];
    for (key, value, text) in cases {
        let mut message = sample_info().encode_to_bytes();
        set(&mut message, key, value);
        assert_eq!(invalid(GameInfo::decode_bytes(&message)), text);
    }
    let mut message = sample_info().encode_to_bytes();
    set(&mut message, "game_create_time", "9223372036854775807");
    assert_eq!(
        GameInfo::decode_bytes(&message).unwrap().create_time,
        9223372036854775807
    );
}

#[test]
fn name_with_null_byte_is_refused() {
    let mut message = sample_info().encode_to_bytes();
    message.name = "a\0b".to_string();
    assert_eq!(
        invalid(GameInfo::decode_bytes(&message)),
        "name contains null byte"
    );
}

#[test]
fn game_data_that_is_not_base64_is_refused() {
    let mut message = sample_info().encode_to_bytes();
    set(&mut message, "game_data", "not base64!");
    assert!(matches!(
        GameInfo::decode_bytes(&message),
        Err(Error::Base64Decode(Base64DecodeError::InvalidByte(3, b' ')))
    ));
    for text in ["a", "ab=c", "YR==", "Y Q==", "YQ==YQ==", "\u{e9}", "!!!!"] {
        set(&mut message, "game_data", text);
        let expected = match base64::decode(text).unwrap_err() {
            base64::DecodeError::InvalidByte(at, byte) => Base64DecodeError::InvalidByte(at, byte),
            base64::DecodeError::InvalidLength => Base64DecodeError::InvalidLength,
            base64::DecodeError::InvalidLastSymbol(at, byte) => {
                Base64DecodeError::InvalidLastSymbol(at, byte)
            }
        };
        match GameInfo::decode_bytes(&message) {
            Err(Error::Base64Decode(e)) => assert_eq!(e, expected, "{:?}", text),
            other => panic!("unexpected result for {:?}: {:?}", text, other),
        }
    }
}

#[test]
fn game_data_that_is_cut_short_is_refused() {
    let mut message = sample_info().encode_to_bytes();
    set(&mut message, "game_data", &base64::encode(b"name\0"));
    assert!(matches!(
        GameInfo::decode_bytes(&message),
        Err(Error::BinDecode(BinDecodeError::Incomplete))
    ));
    set(&mut message, "game_data", &base64::encode(b"name\0\x01rest"));
    assert!(matches!(
        GameInfo::decode_bytes(&message),
        Err(Error::BinDecode(BinDecodeError::Failure))
    ));
}

#[test]
fn faults_are_reported_in_the_order_of_reading() {
    // Both the payload and the identifier are missing: the payload is named.
    let mut message = sample_info().encode_to_bytes();
    remove(&mut message, "game_id");
    remove(&mut message, "game_data");
    assert_eq!(
        invalid(GameInfo::decode_bytes(&message)),
        "no `game_data` entry"
    );
    // A bad secret is found before a bad player count.
    let mut message = sample_info().encode_to_bytes();
    set(&mut message, "players_max", "x");
    set(&mut message, "game_secret", "x");
    assert_eq!(
        invalid(GameInfo::decode_bytes(&message)),
        "invalid game_secret"
    );
}
