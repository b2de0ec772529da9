use vstd::prelude::*;
use crate::lan::error::BinDecodeError;

verus! {

/// The four bytes of `n`, least significant first.
pub open spec fn u32_le(n: u32) -> Seq<u8> {
    seq![
        (n % 256) as u8,
        ((n / 256) % 256) as u8,
        ((n / 65536) % 256) as u8,
        (n / 16777216) as u8,
    ]
}

/// The two bytes of `n`, least significant first.
pub open spec fn u16_le(n: u16) -> Seq<u8> {
    seq![(n % 256) as u8, (n / 256) as u8]
}

/// The number whose four bytes, least significant first, start `bytes`.
pub open spec fn u32_from_le(bytes: Seq<u8>) -> u32
    recommends
        bytes.len() >= 4,
{
    (bytes[0] + bytes[1] * 256 + bytes[2] * 65536 + bytes[3] * 16777216) as u32
}

/// The number whose two bytes, least significant first, start `bytes`.
pub open spec fn u16_from_le(bytes: Seq<u8>) -> u16
    recommends
        bytes.len() >= 2,
{
    (bytes[0] + bytes[1] * 256) as u16
}

/// The first position from `from` on that holds a zero byte, or the length
/// of `bytes` if there is none.
pub open spec fn zero_at(bytes: Seq<u8>, from: int) -> int
    decreases bytes.len() - from,
{
    if from >= bytes.len() {
        bytes.len() as int
    } else if bytes[from] == 0 {
        from
    } else {
        zero_at(bytes, from + 1)
    }
}

pub open spec fn no_zero(bytes: Seq<u8>) -> bool {
    forall|i: int| 0 <= i < bytes.len() ==> #[trigger] bytes[i] != 0
}

/// The payload of a game announcement as a mathematical value.
pub struct GameDataView {
    pub name: Seq<u8>,
    pub settings: Seq<u8>,
    pub slots_total: u32,
    pub flags: u32,
    pub port: u16,
}

impl GameDataView {
    /// Name and settings are zero-terminated on the wire, so neither holds a zero byte.
    pub open spec fn wf(self) -> bool {
        no_zero(self.name) && no_zero(self.settings)
    }

    /// The payload on the wire: the name and a zero, one more zero, the
    /// settings and a zero, then slot count, flags and port, least
    /// significant byte first.
    pub open spec fn encode(self) -> Seq<u8> {
        self.name + seq![0u8, 0u8] + self.settings + seq![0u8] + u32_le(self.slots_total) + u32_le(
            self.flags,
        ) + u16_le(self.port)
    }

    /// The payload that `bytes` start with; bytes after it are not looked at.
    pub open spec fn decode(bytes: Seq<u8>) -> Result<GameDataView, BinDecodeError> {
        let name_end = zero_at(bytes, 0);
        let settings_start = name_end + 2;
        let settings_end = zero_at(bytes, settings_start);
        let tail = settings_end + 1;
        if name_end + 1 >= bytes.len() {
            Err(BinDecodeError::Incomplete)
        } else if bytes[name_end + 1] != 0 {
            Err(BinDecodeError::Failure)
        } else if tail + 10 > bytes.len() {
            Err(BinDecodeError::Incomplete)
        } else {
            Ok(
                GameDataView {
                    name: bytes.subrange(0, name_end),
                    settings: bytes.subrange(settings_start, settings_end),
                    slots_total: u32_from_le(bytes.subrange(tail, tail + 4)),
                    flags: u32_from_le(bytes.subrange(tail + 4, tail + 8)),
                    port: u16_from_le(bytes.subrange(tail + 8, tail + 10)),
                },
            )
        }
    }
}

/// The payload of a game announcement. The settings are carried as they
/// stand on the wire.
#[derive(Clone, Debug, PartialEq, Eq)]
pub struct GameData {
    pub name: Vec<u8>,
    pub settings: Vec<u8>,
    pub slots_total: u32,
    pub flags: u32,
    pub port: u16,
}

impl View for GameData {
    type V = GameDataView;

    open spec fn view(&self) -> GameDataView {
        GameDataView {
            name: self.name@,
            settings: self.settings@,
            slots_total: self.slots_total,
            flags: self.flags,
            port: self.port,
        }
    }
}

/// A result of reading a payload as a mathematical value.
pub open spec fn decoded_view(result: Result<GameData, BinDecodeError>) -> Result<
    GameDataView,
    BinDecodeError,
> {
    match result {
        Ok(data) => Ok(data@),
        Err(e) => Err(e),
    }
}

/// The search for a zero byte stops at the first one.
pub proof fn lemma_zero_at(bytes: Seq<u8>, from: int, end: int)
    requires
        0 <= from <= end <= bytes.len(),
        forall|i: int| from <= i < end ==> #[trigger] bytes[i] != 0,
        end < bytes.len() ==> bytes[end] == 0,
    ensures
        zero_at(bytes, from) == end,
    decreases end - from,
{
    if from < end {
        lemma_zero_at(bytes, from + 1, end);
    }
}

/// Four bytes, least significant first, give their number back.
pub proof fn lemma_u32_le(n: u32)
    ensures
        u32_le(n).len() == 4,
        u32_from_le(u32_le(n)) == n,
{
}

/// Two bytes, least significant first, give their number back.
pub proof fn lemma_u16_le(n: u16)
    ensures
        u16_le(n).len() == 2,
        u16_from_le(u16_le(n)) == n,
{
}

/// Reading what was written gives the payload back, whatever follows it.
pub proof fn lemma_decode_encode(data: GameDataView, rest: Seq<u8>)
    requires
        data.wf(),
    ensures
        GameDataView::decode(data.encode() + rest) == Ok::<GameDataView, BinDecodeError>(data),
{
    let bytes = data.encode() + rest;
    let name_end = data.name.len() as int;
    let settings_start = name_end + 2;
    let settings_end = settings_start + data.settings.len();
    let tail = settings_end + 1;
    lemma_u32_le(data.slots_total);
    lemma_u32_le(data.flags);
    lemma_u16_le(data.port);
    assert(bytes.len() == tail + 10 + rest.len());
    assert forall|i: int| 0 <= i < name_end implies #[trigger] bytes[i] != 0 by {
        assert(bytes[i] == data.name[i]);
    }
    assert(bytes[name_end] == 0);
    assert(bytes[name_end + 1] == 0);
    lemma_zero_at(bytes, 0, name_end);
    assert forall|i: int| settings_start <= i < settings_end implies #[trigger] bytes[i] != 0 by {
        assert(bytes[i] == data.settings[i - settings_start]);
    }
    assert(bytes[settings_end] == 0);
    lemma_zero_at(bytes, settings_start, settings_end);
    assert(bytes.subrange(0, name_end) =~= data.name);
    assert(bytes.subrange(settings_start, settings_end) =~= data.settings);
    assert(bytes.subrange(tail, tail + 4) =~= u32_le(data.slots_total));
    assert(bytes.subrange(tail + 4, tail + 8) =~= u32_le(data.flags));
    assert(bytes.subrange(tail + 8, tail + 10) =~= u16_le(data.port));
}

/// Appends the four bytes of `n`, least significant first.
fn put_u32_le(buf: &mut Vec<u8>, n: u32)
    ensures
        final(buf)@ == old(buf)@ + u32_le(n),
{
    buf.push((n % 256) as u8);
    buf.push(((n / 256) % 256) as u8);
    buf.push(((n / 65536) % 256) as u8);
    buf.push((n / 16777216) as u8);
    assert(buf@ =~= old(buf)@ + u32_le(n));
}

/// Appends the two bytes of `n`, least significant first.
fn put_u16_le(buf: &mut Vec<u8>, n: u16)
    ensures
        final(buf)@ == old(buf)@ + u16_le(n),
{
    buf.push((n % 256) as u8);
    buf.push((n / 256) as u8);
    assert(buf@ =~= old(buf)@ + u16_le(n));
}

/// Appends `bytes`.
fn put_slice(buf: &mut Vec<u8>, bytes: &Vec<u8>)
    ensures
        final(buf)@ == old(buf)@ + bytes@,
{
    let mut i: usize = 0;
    while i < bytes.len()
        invariant
            i <= bytes.len(),
            buf@ == old(buf)@ + bytes@.take(i as int),
        decreases bytes.len() - i,
    {
        buf.push(bytes[i]);
        proof {
            assert(bytes@.take(i + 1) =~= bytes@.take(i as int).push(bytes@[i as int]));
            assert(buf@ =~= old(buf)@ + bytes@.take(i + 1));
        }
        i += 1;
    }
    proof {
        assert(bytes@.take(i as int) =~= bytes@);
    }
}

/// The first position from `from` on that holds a zero byte, or the length.
pub(crate) fn find_zero(bytes: &[u8], from: usize) -> (end: usize)
    requires
        from <= bytes@.len(),
    ensures
        end == zero_at(bytes@, from as int),
        from <= end <= bytes@.len(),
{
    let mut i: usize = from;
    while i < bytes.len() && bytes[i] != 0
        invariant
            from <= i <= bytes@.len(),
            zero_at(bytes@, from as int) == zero_at(bytes@, i as int),
        decreases bytes@.len() - i,
    {
        i += 1;
    }
    i
}

/// A copy of the bytes from `from` up to `to`.
fn copy_range(bytes: &[u8], from: usize, to: usize) -> (copy: Vec<u8>)
    requires
        from <= to <= bytes@.len(),
    ensures
        copy@ == bytes@.subrange(from as int, to as int),
{
    let mut copy: Vec<u8> = Vec::new();
    let mut i: usize = from;
    while i < to
        invariant
            from <= i <= to <= bytes@.len(),
            copy@ == bytes@.subrange(from as int, i as int),
        decreases to - i,
    {
        copy.push(bytes[i]);
        proof {
            assert(copy@ =~= bytes@.subrange(from as int, i + 1));
        }
        i += 1;
    }
    copy
}

/// The number whose four bytes, least significant first, stand at `at`.
fn get_u32_le(bytes: &[u8], at: usize) -> (n: u32)
    requires
        at + 4 <= bytes@.len(),
    ensures
        n == u32_from_le(bytes@.subrange(at as int, at + 4)),
{
    let b0 = bytes[at] as u32;
    let b1 = bytes[at + 1] as u32;
    let b2 = bytes[at + 2] as u32;
    let b3 = bytes[at + 3] as u32;
    b0 + b1 * 256 + b2 * 65536 + b3 * 16777216
}

/// The number whose two bytes, least significant first, stand at `at`.
fn get_u16_le(bytes: &[u8], at: usize) -> (n: u16)
    requires
        at + 2 <= bytes@.len(),
    ensures
        n == u16_from_le(bytes@.subrange(at as int, at + 2)),
{
    let b0 = bytes[at] as u16;
    let b1 = bytes[at + 1] as u16;
    b0 + b1 * 256
}

impl GameData {
    /// Tells whether neither name nor settings hold a zero byte.
    pub fn is_valid(&self) -> (valid: bool)
        ensures
            valid == self@.wf(),
    {
        let name_end = find_zero(self.name.as_slice(), 0);
        let settings_end = find_zero(self.settings.as_slice(), 0);
        proof {
            lemma_zero_at_none(self.name@);
            lemma_zero_at_none(self.settings@);
        }
        name_end == self.name.len() && settings_end == self.settings.len()
    }

    /// The payload on the wire.
    pub fn encode_to_bytes(&self) -> (bytes: Vec<u8>)
        ensures
            bytes@ == self@.encode(),
    {
        let mut bytes: Vec<u8> = Vec::new();
        put_slice(&mut bytes, &self.name);
        bytes.push(0);
        bytes.push(0);
        put_slice(&mut bytes, &self.settings);
        bytes.push(0);
        put_u32_le(&mut bytes, self.slots_total);
        put_u32_le(&mut bytes, self.flags);
        put_u16_le(&mut bytes, self.port);
        assert(bytes@ =~= self@.encode());
        bytes
    }

    /// Reads the payload that `bytes` start with. What is read holds no zero
    /// byte in name or settings.
    pub fn decode(bytes: &[u8]) -> (result: Result<GameData, BinDecodeError>)
        ensures
            decoded_view(result) == GameDataView::decode(bytes@),
            result matches Ok(data) ==> data@.wf(),
    {
        let len = bytes.len();
        let name_end = find_zero(bytes, 0);
        if name_end >= len || len - name_end < 2 {
            return Err(BinDecodeError::Incomplete);
        }
        if bytes[name_end + 1] != 0 {
            return Err(BinDecodeError::Failure);
        }
        let settings_start = name_end + 2;
        let settings_end = find_zero(bytes, settings_start);
        if settings_end >= len || len - settings_end < 11 {
            return Err(BinDecodeError::Incomplete);
        }
        let tail = settings_end + 1;
        let data = GameData {
            name: copy_range(bytes, 0, name_end),
            settings: copy_range(bytes, settings_start, settings_end),
            slots_total: get_u32_le(bytes, tail),
            flags: get_u32_le(bytes, tail + 4),
            port: get_u16_le(bytes, tail + 8),
        };
        proof {
            lemma_zero_at_before(bytes@, 0, name_end as int);
            lemma_zero_at_before(bytes@, settings_start as int, settings_end as int);
        }
        Ok(data)
    }
}

/// No zero byte stands in `bytes` exactly when the search for one runs to the end.
pub proof fn lemma_zero_at_none(bytes: Seq<u8>)
    ensures
        no_zero(bytes) <==> zero_at(bytes, 0) == bytes.len(),
{
    lemma_zero_at_first(bytes, 0);
    if no_zero(bytes) {
        lemma_zero_at(bytes, 0, bytes.len() as int);
    }
}

/// The search for a zero byte ends on one, or at the end, and passes none.
pub proof fn lemma_zero_at_first(bytes: Seq<u8>, from: int)
    requires
        0 <= from <= bytes.len(),
    ensures
        from <= zero_at(bytes, from) <= bytes.len(),
        zero_at(bytes, from) < bytes.len() ==> bytes[zero_at(bytes, from)] == 0,
        forall|i: int| from <= i < zero_at(bytes, from) ==> #[trigger] bytes[i] != 0,
    decreases bytes.len() - from,
{
    if from < bytes.len() && bytes[from] != 0 {
        lemma_zero_at_first(bytes, from + 1);
    }
}

/// The bytes passed over in the search for a zero byte hold none.
pub proof fn lemma_zero_at_before(bytes: Seq<u8>, from: int, end: int)
    requires
        0 <= from <= bytes.len(),
        end == zero_at(bytes, from),
    ensures
        no_zero(bytes.subrange(from, end)),
{
    lemma_zero_at_first(bytes, from);
    assert forall|i: int| 0 <= i < bytes.subrange(from, end).len() implies #[trigger] bytes.subrange(
        from,
        end,
    )[i] != 0 by {
        assert(bytes[from + i] != 0);
    }
}

} // verus!
