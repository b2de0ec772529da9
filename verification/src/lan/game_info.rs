use vstd::prelude::*;
use vstd::slice::slice_to_vec;
use vstd::string::{StringExecFns, StringSliceAdditionalSpecFns};
use vstd::utf8::{decode_utf8, encode_utf8, valid_utf8};
use crate::lan::decimal::{
    decimal, format_unsigned, lemma_parse_decimal, parse_unsigned, parse_unsigned_max,
};
use crate::lan::error::{Base64DecodeError, Error, Result};
use crate::lan::game_data::{
    find_zero, lemma_decode_encode, lemma_zero_at_none, no_zero, GameData, GameDataView,
};

verus! {

/// The latest creation time, in seconds since the epoch, that the system
/// clock can hold.
pub const MAX_CREATE_TIME_SECS: u64 = 9223372036854775807;

/// The base64 text of `bytes`: standard alphabet, padded. It stands for what
/// `base64::encode` returns.
pub uninterp spec fn base64_encoding(bytes: Seq<u8>) -> Seq<char>;

/// The bytes that the base64 text `text` stands for, or why it is not
/// base64. It stands for what `base64::decode` returns.
pub uninterp spec fn base64_decoding(text: Seq<char>) -> Result<Seq<u8>, Base64DecodeError>;

/// The text that `bytes` give when every invalid UTF-8 sequence among them is
/// replaced. It stands for what `String::from_utf8_lossy` returns.
pub uninterp spec fn utf8_lossy(bytes: Seq<u8>) -> Seq<char>;

/// Calls `base64::encode`. The result is the base64 text of `bytes`, and
/// decoding that text gives `bytes` back. The bound keeps the size of the
/// text within `usize`, where the call would panic otherwise.
#[verifier::external_body]
fn base64_encode(bytes: &Vec<u8>) -> (text: String)
    requires
        bytes@.len() / 3 * 4 + 4 <= usize::MAX,
    ensures
        text@ == base64_encoding(bytes@),
        base64_decoding(text@) is Ok && base64_decoding(text@)->Ok_0 == bytes@,
{
    base64::encode(bytes)
}

/// Calls `base64::decode`. The result is the bytes that `text` stands for,
/// or the error that the call reports, variant for variant. The bound keeps
/// the count of the text's chunks within `usize`, where the call would panic
/// otherwise.
#[verifier::external_body]
fn base64_decode(text: &str) -> (result: Result<Vec<u8>, Base64DecodeError>)
    requires
        text.spec_bytes().len() + 7 <= usize::MAX,
    ensures
        match result {
            Ok(bytes) => base64_decoding(text@) is Ok && base64_decoding(text@)->Ok_0 == bytes@,
            Err(e) => base64_decoding(text@) is Err && base64_decoding(text@)->Err_0 == e,
        },
{
    match base64::decode(text) {
        Ok(bytes) => Ok(bytes),
        Err(base64::DecodeError::InvalidByte(at, byte)) => Err(Base64DecodeError::InvalidByte(at, byte)),
        Err(base64::DecodeError::InvalidLength) => Err(Base64DecodeError::InvalidLength),
        Err(base64::DecodeError::InvalidLastSymbol(at, byte)) => Err(
            Base64DecodeError::InvalidLastSymbol(at, byte),
        ),
    }
}

/// Calls `String::from_utf8_lossy`. Valid UTF-8 comes back as the text it
/// encodes; of other bytes only the name of the result is stated.
#[verifier::external_body]
fn utf8_lossy_string(bytes: &Vec<u8>) -> (text: String)
    ensures
        text@ == utf8_lossy(bytes@),
        valid_utf8(bytes@) ==> text@ == decode_utf8(bytes@),
{
    String::from_utf8_lossy(bytes).into_owned()
}

/// One key with its value.
#[derive(Clone, Debug, PartialEq, Eq)]
pub struct GameInfoEntry {
    pub key: String,
    pub value: String,
}

/// A game announcement as the list of keys and values that goes on the wire.
#[derive(Clone, Debug, PartialEq, Eq)]
pub struct GameInfoMessage {
    pub name: String,
    pub message_id: i32,
    pub entries: Vec<GameInfoEntry>,
}

pub struct GameInfoEntryView {
    pub key: Seq<char>,
    pub value: Seq<char>,
}

pub struct GameInfoMessageView {
    pub name: Seq<char>,
    pub message_id: i32,
    pub entries: Seq<GameInfoEntryView>,
}

impl View for GameInfoEntry {
    type V = GameInfoEntryView;

    open spec fn view(&self) -> GameInfoEntryView {
        GameInfoEntryView { key: self.key@, value: self.value@ }
    }
}

impl View for GameInfoMessage {
    type V = GameInfoMessageView;

    open spec fn view(&self) -> GameInfoMessageView {
        GameInfoMessageView {
            name: self.name@,
            message_id: self.message_id,
            entries: self.entries@.map_values(|e: GameInfoEntry| e@),
        }
    }
}

/// The value under `key`: that of the last entry with this key.
pub open spec fn entry_value(entries: Seq<GameInfoEntryView>, key: Seq<char>) -> Option<Seq<char>>
    decreases entries.len(),
{
    if entries.len() == 0 {
        None
    } else if entries.last().key == key {
        Some(entries.last().value)
    } else {
        entry_value(entries.drop_last(), key)
    }
}

/// A game announcement as a mathematical value.
pub struct GameInfoView {
    pub message_id: i32,
    pub game_id: Seq<char>,
    pub create_time: u64,
    pub secret: u32,
    pub name: Seq<u8>,
    pub players_num: u8,
    pub players_max: u8,
    pub data: GameDataView,
}

impl GameInfoView {
    /// What an announcement must meet to come back unchanged from the wire:
    /// the name is UTF-8 without a zero byte, the payload's name and settings
    /// hold no zero byte, and the creation time is one the clock can hold.
    pub open spec fn canonical(self) -> bool {
        &&& valid_utf8(self.name)
        &&& no_zero(self.name)
        &&& self.data.wf()
        &&& self.create_time <= MAX_CREATE_TIME_SECS
    }

    /// The announcement as keys and values.
    pub open spec fn encode(self) -> GameInfoMessageView {
        let name = utf8_lossy(self.name);
        GameInfoMessageView {
            name,
            message_id: self.message_id,
            entries: seq![
                GameInfoEntryView {
                    key: "players_num"@,
                    value: decimal(self.players_num as nat),
                },
                GameInfoEntryView { key: "_name"@, value: name },
                GameInfoEntryView {
                    key: "players_max"@,
                    value: decimal(self.players_max as nat),
                },
                GameInfoEntryView {
                    key: "game_create_time"@,
                    value: decimal(self.create_time as nat),
                },
                GameInfoEntryView { key: "_type"@, value: decimal(1) },
                GameInfoEntryView { key: "_subtype"@, value: decimal(0) },
                GameInfoEntryView { key: "game_secret"@, value: decimal(self.secret as nat) },
                GameInfoEntryView {
                    key: "game_data"@,
                    value: base64_encoding(self.data.encode()),
                },
                GameInfoEntryView { key: "game_id"@, value: self.game_id },
                GameInfoEntryView { key: "_flags"@, value: decimal(0) },
            ],
        }
    }

    /// The announcement that keys and values stand for, or the first fault
    /// found, looking at payload, identifier, secret, creation time, name
    /// and the two player counts in this order.
    pub open spec fn decode(message: GameInfoMessageView) -> Result<GameInfoView> {
        let entries = message.entries;
        let data_b64 = entry_value(entries, "game_data"@);
        let game_id = entry_value(entries, "game_id"@);
        let game_secret = entry_value(entries, "game_secret"@);
        let create_time = entry_value(entries, "game_create_time"@);
        let players_num = entry_value(entries, "players_num"@);
        let players_max = entry_value(entries, "players_max"@);
        if data_b64 is None {
            Err(Error::InvalidGameInfo("no `game_data` entry"))
        } else if base64_decoding(data_b64->0) is Err {
            Err(Error::Base64Decode(base64_decoding(data_b64->0)->Err_0))
        } else if GameDataView::decode(base64_decoding(data_b64->0)->Ok_0) is Err {
            Err(Error::BinDecode(GameDataView::decode(base64_decoding(data_b64->0)->Ok_0)->Err_0))
        } else if game_id is None {
            Err(Error::InvalidGameInfo("no `game_id` entry"))
        } else if game_secret is None {
            Err(Error::InvalidGameInfo("no `game_secret` entry"))
        } else if parse_unsigned(game_secret->0, u32::MAX as nat) is None {
            Err(Error::InvalidGameInfo("invalid game_secret"))
        } else if create_time is None {
            Err(Error::InvalidGameInfo("no `game_create_time` entry"))
        } else if parse_unsigned(create_time->0, u64::MAX as nat) is None {
            Err(Error::InvalidGameInfo("invalid game create timestamp: invalid format"))
        } else if parse_unsigned(create_time->0, u64::MAX as nat)->0 > MAX_CREATE_TIME_SECS {
            Err(Error::InvalidGameInfo("invalid game create timestamp: overflow"))
        } else if !no_zero(encode_utf8(message.name)) {
            Err(Error::InvalidGameInfo("name contains null byte"))
        } else if players_num is None {
            Err(Error::InvalidGameInfo("no `players_num` entry"))
        } else if parse_unsigned(players_num->0, u8::MAX as nat) is None {
            Err(Error::InvalidGameInfo("invalid `players_num`"))
        } else if players_max is None {
            Err(Error::InvalidGameInfo("no `players_max` entry"))
        } else if parse_unsigned(players_max->0, u8::MAX as nat) is None {
            Err(Error::InvalidGameInfo("invalid `players_max`"))
        } else {
            Ok(
                GameInfoView {
                    message_id: message.message_id,
                    game_id: game_id->0,
                    create_time: parse_unsigned(create_time->0, u64::MAX as nat)->0 as u64,
                    secret: parse_unsigned(game_secret->0, u32::MAX as nat)->0 as u32,
                    name: encode_utf8(message.name),
                    players_num: parse_unsigned(players_num->0, u8::MAX as nat)->0 as u8,
                    players_max: parse_unsigned(players_max->0, u8::MAX as nat)->0 as u8,
                    data: GameDataView::decode(base64_decoding(data_b64->0)->Ok_0)->Ok_0,
                },
            )
        }
    }
}

/// A game announcement.
#[derive(Clone, Debug, PartialEq, Eq)]
pub struct GameInfo {
    pub message_id: i32,
    pub game_id: String,
    /// Seconds since the epoch.
    pub create_time: u64,
    pub secret: u32,
    pub name: Vec<u8>,
    pub players_num: u8,
    pub players_max: u8,
    pub data: GameData,
}

impl View for GameInfo {
    type V = GameInfoView;

    open spec fn view(&self) -> GameInfoView {
        GameInfoView {
            message_id: self.message_id,
            game_id: self.game_id@,
            create_time: self.create_time,
            secret: self.secret,
            name: self.name@,
            players_num: self.players_num,
            players_max: self.players_max,
            data: self.data@,
        }
    }
}

/// A result of reading an announcement as a mathematical value.
pub open spec fn decoded_view(result: Result<GameInfo>) -> Result<GameInfoView> {
    match result {
        Ok(info) => Ok(info@),
        Err(e) => Err(e),
    }
}

/// The position of the last entry under `key`, if there is one.
fn find_entry(entries: &Vec<GameInfoEntry>, key: &str) -> (found: Option<usize>)
    ensures
        match found {
            Some(i) => i < entries@.len() && entry_value(
                entries@.map_values(|e: GameInfoEntry| e@),
                key@,
            ) == Some(entries@[i as int].value@),
            None => entry_value(entries@.map_values(|e: GameInfoEntry| e@), key@) is None,
        },
{
    let wanted = String::from_str(key);
    let ghost views = entries@.map_values(|e: GameInfoEntry| e@);
    let mut i: usize = entries.len();
    proof {
        assert(views.take(i as int) =~= views);
    }
    while i > 0
        invariant
            i <= entries@.len(),
            views == entries@.map_values(|e: GameInfoEntry| e@),
            wanted@ == key@,
            entry_value(views, key@) == entry_value(views.take(i as int), key@),
        decreases i,
    {
        i -= 1;
        proof {
            assert(views.take(i + 1).drop_last() =~= views.take(i as int));
            assert(views.take(i + 1).last() == entries@[i as int]@);
        }
        if entries[i].key == wanted {
            proof {
                assert(views.take(i + 1).last().key == key@);
            }
            return Some(i);
        }
    }
    None
}

impl GameInfo {
    /// Turns the announcement into the keys and values that go on the wire.
    /// A canonical announcement is read back from them unchanged.
    pub fn encode_to_bytes(&self) -> (message: GameInfoMessage)
        requires
            self@.data.encode().len() / 3 * 4 + 4 <= usize::MAX,
        ensures
            message@ == self@.encode(),
            self@.canonical() ==> GameInfoView::decode(message@) == Ok::<GameInfoView, Error>(
                self@,
            ),
    {
        let data = base64_encode(&self.data.encode_to_bytes());
        let name_utf8 = utf8_lossy_string(&self.name);
        let mut entries: Vec<GameInfoEntry> = Vec::new();
        entries.push(
            GameInfoEntry {
                key: String::from_str("players_num"),
                value: format_unsigned(self.players_num as u64),
            },
        );
        entries.push(GameInfoEntry { key: String::from_str("_name"), value: name_utf8.clone() });
        entries.push(
            GameInfoEntry {
                key: String::from_str("players_max"),
                value: format_unsigned(self.players_max as u64),
            },
        );
        entries.push(
            GameInfoEntry {
                key: String::from_str("game_create_time"),
                value: format_unsigned(self.create_time),
            },
        );
        entries.push(GameInfoEntry { key: String::from_str("_type"), value: format_unsigned(1) });
        entries.push(
            GameInfoEntry { key: String::from_str("_subtype"), value: format_unsigned(0) },
        );
        entries.push(
            GameInfoEntry {
                key: String::from_str("game_secret"),
                value: format_unsigned(self.secret as u64),
            },
        );
        entries.push(GameInfoEntry { key: String::from_str("game_data"), value: data });
        entries.push(
            GameInfoEntry { key: String::from_str("game_id"), value: self.game_id.clone() },
        );
        entries.push(GameInfoEntry { key: String::from_str("_flags"), value: format_unsigned(0) });
        let message = GameInfoMessage { name: name_utf8, message_id: self.message_id, entries };
        proof {
            assert(message@.entries =~= self@.encode().entries);
            if self@.canonical() {
                lemma_decode_of_encode(self@);
            }
        }
        message
    }

    /// Reads an announcement from its keys and values.
    pub fn decode_bytes(message: &GameInfoMessage) -> (result: Result<GameInfo>)
        requires
            forall|i: int|
                0 <= i < message.entries@.len() ==> encode_utf8(
                    (#[trigger] message.entries@[i]).value@,
                ).len() + 7 <= usize::MAX,
        ensures
            decoded_view(result) == GameInfoView::decode(message@),
    {
        let entries = &message.entries;
        let data_b64 = match find_entry(entries, "game_data") {
            Some(i) => entries[i].value.as_str(),
            None => {
                return Err(Error::InvalidGameInfo("no `game_data` entry"));
            },
        };
        let data_bytes = match base64_decode(data_b64) {
            Ok(bytes) => bytes,
            Err(e) => {
                return Err(Error::Base64Decode(e));
            },
        };
        let game_data = match GameData::decode(data_bytes.as_slice()) {
            Ok(data) => data,
            Err(e) => {
                return Err(Error::BinDecode(e));
            },
        };
        let game_id = match find_entry(entries, "game_id") {
            Some(i) => entries[i].value.clone(),
            None => {
                return Err(Error::InvalidGameInfo("no `game_id` entry"));
            },
        };
        let game_secret = match find_entry(entries, "game_secret") {
            Some(i) => entries[i].value.as_str(),
            None => {
                return Err(Error::InvalidGameInfo("no `game_secret` entry"));
            },
        };
        let secret = match parse_unsigned_max(game_secret, 0xffff_ffff) {
            Some(secret) => secret as u32,
            None => {
                return Err(Error::InvalidGameInfo("invalid game_secret"));
            },
        };
        let game_create_time = match find_entry(entries, "game_create_time") {
            Some(i) => entries[i].value.as_str(),
            None => {
                return Err(Error::InvalidGameInfo("no `game_create_time` entry"));
            },
        };
        let create_time = match parse_unsigned_max(game_create_time, u64::MAX) {
            Some(secs) => secs,
            None => {
                return Err(
                    Error::InvalidGameInfo("invalid game create timestamp: invalid format"),
                );
            },
        };
        if create_time > MAX_CREATE_TIME_SECS {
            return Err(Error::InvalidGameInfo("invalid game create timestamp: overflow"));
        }
        let name_bytes = message.name.as_str().as_bytes();
        proof {
            lemma_zero_at_none(name_bytes@);
        }
        if find_zero(name_bytes, 0) < name_bytes.len() {
            return Err(Error::InvalidGameInfo("name contains null byte"));
        }
        let name = slice_to_vec(name_bytes);
        let players_num = match find_entry(entries, "players_num") {
            Some(i) => entries[i].value.as_str(),
            None => {
                return Err(Error::InvalidGameInfo("no `players_num` entry"));
            },
        };
        let players_num = match parse_unsigned_max(players_num, 0xff) {
            Some(n) => n as u8,
            None => {
                return Err(Error::InvalidGameInfo("invalid `players_num`"));
            },
        };
        let players_max = match find_entry(entries, "players_max") {
            Some(i) => entries[i].value.as_str(),
            None => {
                return Err(Error::InvalidGameInfo("no `players_max` entry"));
            },
        };
        let players_max = match parse_unsigned_max(players_max, 0xff) {
            Some(n) => n as u8,
            None => {
                return Err(Error::InvalidGameInfo("invalid `players_max`"));
            },
        };
        Ok(
            GameInfo {
                message_id: message.message_id,
                game_id,
                name,
                players_num,
                players_max,
                secret,
                create_time,
                data: game_data,
            },
        )
    }
}

/// Where one entry alone stands under `key`, its value is the value under `key`.
pub proof fn lemma_entry_value_at(entries: Seq<GameInfoEntryView>, key: Seq<char>, i: int)
    requires
        0 <= i < entries.len(),
        entries[i].key == key,
        forall|j: int| i < j < entries.len() ==> (#[trigger] entries[j]).key != key,
    ensures
        entry_value(entries, key) == Some(entries[i].value),
    decreases entries.len(),
{
    if i < entries.len() - 1 {
        assert(entries.last() == entries[entries.len() - 1]);
        lemma_entry_value_at(entries.drop_last(), key, i);
    }
}

/// Among ten entries, the value under a key that only the `i`-th entry has is
/// the value of that entry.
proof fn lemma_key_stands_once(entries: Seq<GameInfoEntryView>, key: Seq<char>, i: int)
    requires
        entries.len() == 10,
        0 <= i < 10,
        entries[i].key == key,
        i != 0 ==> entries[0].key != key,
        i != 1 ==> entries[1].key != key,
        i != 2 ==> entries[2].key != key,
        i != 3 ==> entries[3].key != key,
        i != 4 ==> entries[4].key != key,
        i != 5 ==> entries[5].key != key,
        i != 6 ==> entries[6].key != key,
        i != 7 ==> entries[7].key != key,
        i != 8 ==> entries[8].key != key,
        i != 9 ==> entries[9].key != key,
    ensures
        entry_value(entries, key) == Some(entries[i].value),
{
    assert forall|j: int| i < j < entries.len() implies (#[trigger] entries[j]).key != key by {
        if j == 1 {
        } else if j == 2 {
        } else if j == 3 {
        } else if j == 4 {
        } else if j == 5 {
        } else if j == 6 {
        } else if j == 7 {
        } else if j == 8 {
        } else if j == 9 {
        }
    }
    lemma_entry_value_at(entries, key, i);
}

/// Reading the keys and values of a canonical announcement gives it back,
/// where base64 decoding undoes base64 encoding of its payload.
pub proof fn lemma_decode_of_encode(info: GameInfoView)
    requires
        info.canonical(),
        base64_decoding(base64_encoding(info.data.encode())) is Ok,
        base64_decoding(base64_encoding(info.data.encode()))->Ok_0 == info.data.encode(),
        utf8_lossy(info.name) == decode_utf8(info.name),
    ensures
        GameInfoView::decode(info.encode()) == Ok::<GameInfoView, Error>(info),
{
    let message = info.encode();
    let entries = message.entries;
    reveal_strlit("players_num");
    reveal_strlit("_name");
    reveal_strlit("players_max");
    reveal_strlit("game_create_time");
    reveal_strlit("_type");
    reveal_strlit("_subtype");
    reveal_strlit("game_secret");
    reveal_strlit("game_data");
    reveal_strlit("game_id");
    reveal_strlit("_flags");
    assert(entries.len() == 10);
    assert(entries[0].key == "players_num"@);
    assert(entries[1].key == "_name"@);
    assert(entries[2].key == "players_max"@);
    assert(entries[3].key == "game_create_time"@);
    assert(entries[4].key == "_type"@);
    assert(entries[5].key == "_subtype"@);
    assert(entries[6].key == "game_secret"@);
    assert(entries[7].key == "game_data"@);
    assert(entries[8].key == "game_id"@);
    assert(entries[9].key == "_flags"@);
    // The three keys of eleven letters differ in a letter.
    assert("players_num"@[8] == 'n' && "players_max"@[8] == 'm');
    assert("players_num"@[0] == 'p' && "players_max"@[0] == 'p' && "game_secret"@[0] == 'g');
    lemma_key_stands_once(entries, "players_num"@, 0);
    lemma_key_stands_once(entries, "players_max"@, 2);
    lemma_key_stands_once(entries, "game_create_time"@, 3);
    lemma_key_stands_once(entries, "game_secret"@, 6);
    lemma_key_stands_once(entries, "game_data"@, 7);
    lemma_key_stands_once(entries, "game_id"@, 8);
    lemma_parse_decimal(info.secret as nat, u32::MAX as nat);
    lemma_parse_decimal(info.create_time as nat, u64::MAX as nat);
    lemma_parse_decimal(info.players_num as nat, u8::MAX as nat);
    lemma_parse_decimal(info.players_max as nat, u8::MAX as nat);
    lemma_decode_encode(info.data, Seq::<u8>::empty());
    assert(info.data.encode() + Seq::<u8>::empty() =~= info.data.encode());
    vstd::utf8::decode_utf8_encode_utf8(info.name);
}

} // verus!
