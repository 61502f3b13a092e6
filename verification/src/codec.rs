//! Little-endian wire encoding shared by the bridge protocol: integer and
//! string writers, the bounded reader for command payloads, and packets.
use vstd::prelude::*;
use vstd::utf8::{decode_utf8, encode_utf8, valid_utf8};

verus! {

// ---------------------------------------------------------------------------
// Specification of the byte layout
// ---------------------------------------------------------------------------

pub open spec fn byte_at(x: int, k: nat) -> u8 {
    ((x / pow256(k)) % 256) as u8
}

pub open spec fn pow256(k: nat) -> int
    decreases k,
{
    if k == 0 {
        1
    } else {
        256 * pow256((k - 1) as nat)
    }
}

/// Two bytes, least significant first.
pub open spec fn le16(x: int) -> Seq<u8> {
    seq![byte_at(x, 0), byte_at(x, 1)]
}

/// Four bytes, least significant first (`to_le_bytes`); a negative value is
/// written in two's complement.
pub open spec fn le32(x: int) -> Seq<u8> {
    let u = if x < 0 {
        x + 4294967296
    } else {
        x
    };
    seq![byte_at(u, 0), byte_at(u, 1), byte_at(u, 2), byte_at(u, 3)]
}

/// The value of two little-endian bytes.
pub open spec fn from_le16(b: Seq<u8>) -> int {
    b[0] + 256 * b[1]
}

/// The unsigned value of four little-endian bytes.
pub open spec fn from_le32(b: Seq<u8>) -> int {
    b[0] + 256 * b[1] + 65536 * b[2] + 16777216 * b[3]
}

/// The two's complement value of four little-endian bytes.
pub open spec fn from_le32_signed(b: Seq<u8>) -> int {
    let u = from_le32(b);
    if u >= 2147483648 {
        u - 4294967296
    } else {
        u
    }
}

/// `u16::try_from(n).unwrap_or(u16::MAX)`.
pub open spec fn clamp16(n: int) -> int {
    if n > 65535 {
        65535
    } else {
        n
    }
}

/// A string as written by `push_u16_string`: its UTF-8 length (capped at
/// `u16::MAX`) and then that many bytes of its UTF-8 encoding.
pub open spec fn u16_string_bytes(s: Seq<char>) -> Seq<u8> {
    let b = encode_utf8(s);
    let n = clamp16(b.len() as int);
    le16(n) + b.take(n)
}

// ---------------------------------------------------------------------------
// Writers
// ---------------------------------------------------------------------------

pub fn clamp_u16(value: usize) -> (r: u16)
    ensures
        r as int == clamp16(value as int),
{
    if value > 65535 {
        65535
    } else {
        value as u16
    }
}

pub fn clamp_u32_to_u16(value: u32) -> (r: u16)
    ensures
        r as int == clamp16(value as int),
{
    if value > 65535 {
        65535
    } else {
        value as u16
    }
}

pub fn clamp_u32(value: usize) -> (r: u32)
    ensures
        r as int == if value > u32::MAX {
            u32::MAX as int
        } else {
            value as int
        },
{
    if value > 4294967295usize {
        4294967295u32
    } else {
        value as u32
    }
}

pub fn clamp_u8(value: usize) -> (r: u8)
    ensures
        r as int == if value > 255 {
            255
        } else {
            value as int
        },
{
    if value > 255 {
        255
    } else {
        value as u8
    }
}

pub fn clamp_i32(value: usize) -> (r: i32)
    ensures
        r as int == if value > i32::MAX {
            i32::MAX as int
        } else {
            value as int
        },
{
    if value > 2147483647usize {
        2147483647i32
    } else {
        value as i32
    }
}

/// `u8::try_from(value).unwrap_or_default()`.
pub fn clamp_u8_from_i32(value: i32) -> (r: u8)
    ensures
        r as int == if 0 <= value <= 255 {
            value as int
        } else {
            0
        },
{
    if 0 <= value && value <= 255 {
        value as u8
    } else {
        0
    }
}

/// `usize::try_from(value)`, saturating at `usize::MAX`.
pub fn usize_from_u32(value: u32) -> (r: usize)
    ensures
        r as int == if value > usize::MAX {
            usize::MAX as int
        } else {
            value as int
        },
{
    if (value as u64) > (usize::MAX as u64) {
        usize::MAX
    } else {
        value as usize
    }
}

/// `usize::try_from(value)`, saturating at `usize::MAX`.
pub fn usize_from_u64(value: u64) -> (r: usize)
    ensures
        r as int == if value > usize::MAX {
            usize::MAX as int
        } else {
            value as int
        },
{
    if value > (usize::MAX as u64) {
        usize::MAX
    } else {
        value as usize
    }
}

pub fn push_u8(out: &mut Vec<u8>, value: u8)
    ensures
        final(out)@ == old(out)@.push(value),
{
    out.push(value);
}

pub fn push_u16(out: &mut Vec<u8>, value: u16)
    ensures
        final(out)@ == old(out)@ + le16(value as int),
{
    out.push((value % 256) as u8);
    out.push((value / 256) as u8);
    assert(out@ =~= old(out)@ + le16(value as int));
}

fn push_le32(out: &mut Vec<u8>, u: u32)
    ensures
        final(out)@ == old(out)@ + seq![
            byte_at(u as int, 0),
            byte_at(u as int, 1),
            byte_at(u as int, 2),
            byte_at(u as int, 3),
        ],
{
    assert(pow256(1) == 256 && pow256(2) == 65536 && pow256(3) == 16777216) by {
        reveal_with_fuel(pow256, 4);
    }
    out.push((u % 256) as u8);
    out.push(((u / 256) % 256) as u8);
    out.push(((u / 65536) % 256) as u8);
    out.push(((u / 16777216) % 256) as u8);
    assert(out@ =~= old(out)@ + seq![
        byte_at(u as int, 0),
        byte_at(u as int, 1),
        byte_at(u as int, 2),
        byte_at(u as int, 3),
    ]);
}

pub fn push_u32(out: &mut Vec<u8>, value: u32)
    ensures
        final(out)@ == old(out)@ + le32(value as int),
{
    push_le32(out, value);
}

pub fn push_i32(out: &mut Vec<u8>, value: i32)
    ensures
        final(out)@ == old(out)@ + le32(value as int),
{
    let u: u32 = if value < 0 {
        ((value as i64) + 4294967296i64) as u32
    } else {
        value as u32
    };
    push_le32(out, u);
}

/// Appends the bytes of a slice.
pub fn push_bytes(out: &mut Vec<u8>, bytes: &[u8], n: usize)
    requires
        n <= bytes@.len(),
    ensures
        final(out)@ == old(out)@ + bytes@.take(n as int),
{
    let mut i: usize = 0;
    while i < n
        invariant
            n <= bytes@.len(),
            i <= n,
            out@ == old(out)@ + bytes@.take(i as int),
        decreases n - i,
    {
        out.push(bytes[i]);
        i += 1;
        assert(out@ =~= old(out)@ + bytes@.take(i as int));
    }
}

/// Writes a string as its byte length (`u16`, capped) and its UTF-8 bytes.
pub fn push_u16_string(out: &mut Vec<u8>, value: &str)
    ensures
        final(out)@ == old(out)@ + u16_string_bytes(value@),
{
    let bytes = value.as_bytes();
    let len = clamp_u16(bytes.len());
    push_u16(out, len);
    push_bytes(out, bytes, len as usize);
    assert(out@ =~= old(out)@ + u16_string_bytes(value@));
}

// ---------------------------------------------------------------------------
// Reader
// ---------------------------------------------------------------------------

/// What `String::from_utf8_lossy` makes of bytes that are not valid UTF-8.
pub uninterp spec fn utf8_lossy(bytes: Seq<u8>) -> Seq<char>;

/// `String::from_utf8_lossy`: valid UTF-8 decodes as is; otherwise each
/// invalid sequence becomes U+FFFD, which is left unstated here and named
/// `utf8_lossy`.
#[verifier::external_body]
pub(crate) fn string_from_utf8_lossy(bytes: &[u8]) -> (s: String)
    ensures
        valid_utf8(bytes@) ==> s@ == decode_utf8(bytes@),
        !valid_utf8(bytes@) ==> s@ == utf8_lossy(bytes@),
{
    String::from_utf8_lossy(bytes).to_string()
}

pub open spec fn decoded_text(bytes: Seq<u8>) -> Seq<char> {
    if valid_utf8(bytes) {
        decode_utf8(bytes)
    } else {
        utf8_lossy(bytes)
    }
}

/// A cursor over a command payload.
pub struct BinaryReader<'a> {
    pub bytes: &'a [u8],
    pub offset: usize,
}

pub open spec fn truncated_message() -> Seq<char> {
    "binary command payload truncated"@
}

pub open spec fn string_truncated_message() -> Seq<char> {
    "binary command string truncated"@
}

pub open spec fn trailing_message() -> Seq<char> {
    "binary command payload has trailing bytes"@
}

impl<'a> BinaryReader<'a> {
    pub open spec fn remaining(&self) -> int {
        self.bytes@.len() - self.offset
    }

    pub open spec fn wf(&self) -> bool {
        self.offset <= self.bytes@.len()
    }

    /// The `n` bytes at the cursor.
    pub open spec fn next_bytes(&self, n: int) -> Seq<u8> {
        self.bytes@.subrange(self.offset as int, self.offset + n)
    }

    pub fn new(bytes: &'a [u8]) -> (r: Self)
        ensures
            r.bytes@ == bytes@,
            r.offset == 0,
            r.wf(),
    {
        BinaryReader { bytes, offset: 0 }
    }

    pub fn expect_done(&self) -> (r: Result<(), String>)
        ensures
            r is Ok <==> self.offset == self.bytes@.len(),
            r matches Err(e) ==> e@ == trailing_message(),
    {
        if self.offset == self.bytes.len() {
            Ok(())
        } else {
            let e = crate::text::owned("binary command payload has trailing bytes");
            proof {
                reveal_strlit("binary command payload has trailing bytes");
            }
            Err(e)
        }
    }

    fn truncated() -> (e: String)
        ensures
            e@ == truncated_message(),
    {
        proof {
            reveal_strlit("binary command payload truncated");
        }
        crate::text::owned("binary command payload truncated")
    }

    pub fn read_u8(&mut self) -> (r: Result<u8, String>)
        requires
            old(self).wf(),
        ensures
            final(self).wf(),
            final(self).bytes@ == old(self).bytes@,
            old(self).remaining() >= 1 ==> r == Ok::<u8, String>(old(self).bytes@[old(self).offset as int])
                && final(self).offset == old(self).offset + 1,
            old(self).remaining() < 1 ==> (r matches Err(e) && e@ == truncated_message())
                && final(self).offset == old(self).offset,
    {
        if self.bytes.len() - self.offset < 1 {
            return Err(Self::truncated());
        }
        let v = self.bytes[self.offset];
        self.offset = self.offset + 1;
        Ok(v)
    }

    pub fn read_u16(&mut self) -> (r: Result<u16, String>)
        requires
            old(self).wf(),
        ensures
            final(self).wf(),
            final(self).bytes@ == old(self).bytes@,
            old(self).remaining() >= 2 ==> (r matches Ok(v) && v as int == from_le16(
                old(self).next_bytes(2),
            )) && final(self).offset == old(self).offset + 2,
            old(self).remaining() < 2 ==> (r matches Err(e) && e@ == truncated_message())
                && final(self).offset == old(self).offset,
    {
        if self.bytes.len() - self.offset < 2 {
            return Err(Self::truncated());
        }
        let b0 = self.bytes[self.offset] as u16;
        let b1 = self.bytes[self.offset + 1] as u16;
        self.offset = self.offset + 2;
        Ok(b0 + 256 * b1)
    }

    fn read_le32(&mut self) -> (r: Result<u32, String>)
        requires
            old(self).wf(),
        ensures
            final(self).wf(),
            final(self).bytes@ == old(self).bytes@,
            old(self).remaining() >= 4 ==> (r matches Ok(v) && v as int == from_le32(
                old(self).next_bytes(4),
            )) && final(self).offset == old(self).offset + 4,
            old(self).remaining() < 4 ==> (r matches Err(e) && e@ == truncated_message())
                && final(self).offset == old(self).offset,
    {
        if self.bytes.len() - self.offset < 4 {
            return Err(Self::truncated());
        }
        let b0 = self.bytes[self.offset] as u32;
        let b1 = self.bytes[self.offset + 1] as u32;
        let b2 = self.bytes[self.offset + 2] as u32;
        let b3 = self.bytes[self.offset + 3] as u32;
        self.offset = self.offset + 4;
        Ok(b0 + 256 * b1 + 65536 * b2 + 16777216 * b3)
    }

    pub fn read_u32(&mut self) -> (r: Result<u32, String>)
        requires
            old(self).wf(),
        ensures
            final(self).wf(),
            final(self).bytes@ == old(self).bytes@,
            old(self).remaining() >= 4 ==> (r matches Ok(v) && v as int == from_le32(
                old(self).next_bytes(4),
            )) && final(self).offset == old(self).offset + 4,
            old(self).remaining() < 4 ==> (r matches Err(e) && e@ == truncated_message())
                && final(self).offset == old(self).offset,
    {
        self.read_le32()
    }

    pub fn read_i32(&mut self) -> (r: Result<i32, String>)
        requires
            old(self).wf(),
        ensures
            final(self).wf(),
            final(self).bytes@ == old(self).bytes@,
            old(self).remaining() >= 4 ==> (r matches Ok(v) && v as int == from_le32_signed(
                old(self).next_bytes(4),
            )) && final(self).offset == old(self).offset + 4,
            old(self).remaining() < 4 ==> (r matches Err(e) && e@ == truncated_message())
                && final(self).offset == old(self).offset,
    {
        match self.read_le32() {
            Ok(u) => {
                if u >= 2147483648 {
                    Ok(((u as i64) - 4294967296i64) as i32)
                } else {
                    Ok(u as i32)
                }
            },
            Err(e) => Err(e),
        }
    }

    pub fn read_u16_string(&mut self) -> (r: Result<String, String>)
        requires
            old(self).wf(),
        ensures
            final(self).wf(),
            final(self).bytes@ == old(self).bytes@,
            old(self).remaining() < 2 ==> (r matches Err(e) && e@ == truncated_message())
                && final(self).offset == old(self).offset,
            old(self).remaining() >= 2 ==> ({
                let n = from_le16(old(self).next_bytes(2));
                if old(self).remaining() - 2 < n {
                    (r matches Err(e) && e@ == string_truncated_message())
                        && final(self).offset == old(self).offset + 2
                } else {
                    (r matches Ok(s) && s@ == decoded_text(
                        old(self).bytes@.subrange(old(self).offset + 2, old(self).offset + 2 + n),
                    )) && final(self).offset == old(self).offset + 2 + n
                }
            }),
    {
        let len = match self.read_u16() {
            Ok(v) => v as usize,
            Err(e) => return Err(e),
        };
        if self.bytes.len() - self.offset < len {
            proof {
                reveal_strlit("binary command string truncated");
            }
            return Err(crate::text::owned("binary command string truncated"));
        }
        let start = self.offset;
        let piece = vstd::slice::slice_subrange(self.bytes, start, start + len);
        self.offset = start + len;
        Ok(string_from_utf8_lossy(piece))
    }

    /// A list of strings: its length (`u16`), then the strings.
    pub fn read_u16_string_vec(&mut self) -> (r: Result<Vec<String>, String>)
        requires
            old(self).wf(),
        ensures
            final(self).wf(),
            final(self).bytes@ == old(self).bytes@,
            match r {
                Ok(v) => rd_str_list(old(self).bytes@, old(self).offset as int) == Ok::<
                    (Seq<Seq<char>>, int),
                    Seq<char>,
                >((strings_view(v@), final(self).offset as int)),
                Err(e) => rd_str_list(old(self).bytes@, old(self).offset as int) matches Err(m)
                    && m == e@,
            },
    {
        let ghost b = self.bytes@;
        let ghost o0 = self.offset as int;
        let count = match self.read_u16() {
            Ok(v) => v as usize,
            Err(e) => return Err(e),
        };
        let mut out: Vec<String> = Vec::new();
        let mut i: usize = 0;
        assert(strings_view(out@) =~= Seq::<Seq<char>>::empty());
        while i < count
            invariant
                self.wf(),
                self.bytes@ == b,
                b == old(self).bytes@,
                o0 == old(self).offset,
                b.len() - o0 >= 2,
                count as int == from_le16(b.subrange(o0, o0 + 2)),
                i <= count,
                rd_strs(b, o0 + 2, i as nat) == Ok::<(Seq<Seq<char>>, int), Seq<char>>(
                    (strings_view(out@), self.offset as int),
                ),
            decreases count - i,
        {
            let ghost before = out@;
            match self.read_u16_string() {
                Ok(s) => {
                    out.push(s);
                    assert(strings_view(out@) =~= strings_view(before).push(s@));
                },
                Err(e) => {
                    proof {
                        lemma_rd_strs_err_persists(b, o0 + 2, (i + 1) as nat, count as nat);
                    }
                    return Err(e);
                },
            }
            i += 1;
        }
        Ok(out)
    }
}

pub open spec fn strings_view(v: Seq<String>) -> Seq<Seq<char>> {
    v.map_values(|s: String| s@)
}

/// A string read at an offset: its byte length (`u16`) and its bytes,
/// decoded as UTF-8 with invalid sequences replaced; with the offset after
/// it, or the error.
pub open spec fn rd_str(b: Seq<u8>, o: int) -> Result<(Seq<char>, int), Seq<char>> {
    if b.len() - o < 2 {
        Err(truncated_message())
    } else {
        let n = from_le16(b.subrange(o, o + 2));
        if b.len() - o - 2 < n {
            Err(string_truncated_message())
        } else {
            Ok((decoded_text(b.subrange(o + 2, o + 2 + n)), o + 2 + n))
        }
    }
}

/// `count` strings, one after the other.
pub open spec fn rd_strs(b: Seq<u8>, o: int, count: nat) -> Result<(Seq<Seq<char>>, int), Seq<char>>
    decreases count,
{
    if count == 0 {
        Ok((Seq::empty(), o))
    } else {
        match rd_strs(b, o, (count - 1) as nat) {
            Ok((v, o2)) => match rd_str(b, o2) {
                Ok((s, o3)) => Ok((v.push(s), o3)),
                Err(e) => Err(e),
            },
            Err(e) => Err(e),
        }
    }
}

/// Once reading a list fails, reading more of it fails the same way.
pub proof fn lemma_rd_strs_err_persists(b: Seq<u8>, o: int, k: nat, m: nat)
    requires
        k <= m,
        rd_strs(b, o, k) is Err,
    ensures
        rd_strs(b, o, m) == rd_strs(b, o, k),
    decreases m - k,
{
    if k < m {
        lemma_rd_strs_err_persists(b, o, k, (m - 1) as nat);
    }
}

/// A list of strings: its length (`u16`), then the strings.
pub open spec fn rd_str_list(b: Seq<u8>, o: int) -> Result<(Seq<Seq<char>>, int), Seq<char>> {
    if b.len() - o < 2 {
        Err(truncated_message())
    } else {
        rd_strs(b, o + 2, from_le16(b.subrange(o, o + 2)) as nat)
    }
}

// ---------------------------------------------------------------------------
// Round trip
// ---------------------------------------------------------------------------

pub proof fn lemma_byte_values(x: int)
    requires
        0 <= x < 65536,
    ensures
        from_le16(le16(x)) == x,
{
    assert(pow256(1) == 256) by {
        reveal_with_fuel(pow256, 2);
    }
}

/// A string written with `push_u16_string`, when its UTF-8 form fits in
/// `u16::MAX` bytes, is read back unchanged by `read_u16_string`, whatever
/// precedes and follows it in the payload.
pub proof fn law_u16_string_round_trip(prefix: Seq<u8>, s: Seq<char>, rest: Seq<u8>)
    requires
        encode_utf8(s).len() <= 65535,
    ensures
        ({
            let bytes = prefix + u16_string_bytes(s) + rest;
            let at = prefix.len() as int;
            let n = from_le16(bytes.subrange(at, at + 2));
            &&& n == encode_utf8(s).len()
            &&& at + 2 + n <= bytes.len()
            &&& decoded_text(bytes.subrange(at + 2, at + 2 + n)) == s
        }),
{
    let b = encode_utf8(s);
    let bytes = prefix + u16_string_bytes(s) + rest;
    let at = prefix.len() as int;
    lemma_byte_values(b.len() as int);
    assert(b.take(b.len() as int) =~= b);
    assert(bytes.subrange(at, at + 2) =~= le16(b.len() as int));
    assert(bytes.subrange(at + 2, at + 2 + b.len()) =~= b);
    vstd::utf8::encode_utf8_valid_utf8(s);
    vstd::utf8::encode_utf8_decode_utf8(s);
}

// ---------------------------------------------------------------------------
// Packets
// ---------------------------------------------------------------------------

pub const SNAPSHOT_MAGIC: u32 = 0xFE55_0001;

pub const SECTION_ERROR: u16 = 64;

pub const SECTION_STOPPED: u16 = 128;

/// Bitwise or of the section identifiers.
pub open spec fn section_mask(ids: Seq<u16>) -> u16
    decreases ids.len(),
{
    if ids.len() == 0 {
        0
    } else {
        section_mask(ids.drop_last()) | ids.last()
    }
}

/// `saturating_add` on `u32`.
pub open spec fn sat32(x: int) -> int {
    if x > u32::MAX {
        u32::MAX as int
    } else {
        x
    }
}

/// The length field of a packet: a 12-byte header plus a 4-byte length and
/// the payload for each section, saturating at `u32::MAX`.
pub open spec fn packet_length(lens: Seq<int>) -> int
    decreases lens.len(),
{
    if lens.len() == 0 {
        12
    } else {
        sat32(sat32(packet_length(lens.drop_last()) + 4) + sat32_len(lens.last()))
    }
}

pub open spec fn sat32_len(n: int) -> int {
    if n > u32::MAX {
        u32::MAX as int
    } else {
        n
    }
}

/// The section payloads, each preceded by its length.
pub open spec fn section_bodies(payloads: Seq<Seq<u8>>) -> Seq<u8>
    decreases payloads.len(),
{
    if payloads.len() == 0 {
        seq![]
    } else {
        section_bodies(payloads.drop_last()) + le32(sat32_len(payloads.last().len() as int))
            + payloads.last()
    }
}

/// A packet: magic, total length, mask of section identifiers, a reserved
/// zero, then each section.
pub open spec fn packet_bytes(ids: Seq<u16>, payloads: Seq<Seq<u8>>) -> Seq<u8> {
    le32(SNAPSHOT_MAGIC as int) + le32(
        packet_length(payloads.map_values(|p: Seq<u8>| p.len() as int)),
    ) + le16(section_mask(ids) as int) + le16(0) + section_bodies(payloads)
}

/// A bridge section: its identifier bit and its payload.
pub struct PacketSection {
    pub id: u16,
    pub payload: Vec<u8>,
}

pub open spec fn section_ids(sections: Seq<PacketSection>) -> Seq<u16> {
    sections.map_values(|s: PacketSection| s.id)
}

pub open spec fn section_payloads(sections: Seq<PacketSection>) -> Seq<Seq<u8>> {
    sections.map_values(|s: PacketSection| s.payload@)
}

/// Frames sections into one packet.
pub fn encode_packet(sections: Vec<PacketSection>) -> (out: Vec<u8>)
    ensures
        out@ == packet_bytes(section_ids(sections@), section_payloads(sections@)),
{
    let ghost ids = section_ids(sections@);
    let ghost payloads = section_payloads(sections@);
    let mut mask: u16 = 0;
    let mut total: u32 = 12;
    let mut i: usize = 0;
    while i < sections.len()
        invariant
            i <= sections@.len(),
            ids == section_ids(sections@),
            payloads == section_payloads(sections@),
            mask == section_mask(ids.take(i as int)),
            total as int == packet_length(
                payloads.take(i as int).map_values(|p: Seq<u8>| p.len() as int),
            ),
        decreases sections@.len() - i,
    {
        mask = mask | sections[i].id;
        let plus4 = if total > 4294967291u32 {
            4294967295u32
        } else {
            total + 4
        };
        let len = clamp_u32(sections[i].payload.len());
        total = if plus4 > 4294967295u32 - len {
            4294967295u32
        } else {
            plus4 + len
        };
        proof {
            assert(ids.take(i + 1).drop_last() =~= ids.take(i as int));
            let ls = payloads.take(i + 1).map_values(|p: Seq<u8>| p.len() as int);
            assert(ls.drop_last() =~= payloads.take(i as int).map_values(
                |p: Seq<u8>| p.len() as int,
            ));
        }
        i += 1;
    }
    assert(ids.take(sections@.len() as int) =~= ids);
    assert(payloads.take(sections@.len() as int) =~= payloads);
    let mut out: Vec<u8> = Vec::new();
    push_u32(&mut out, SNAPSHOT_MAGIC);
    push_u32(&mut out, total);
    push_u16(&mut out, mask);
    push_u16(&mut out, 0);
    let ghost head = out@;
    let mut j: usize = 0;
    while j < sections.len()
        invariant
            j <= sections@.len(),
            payloads == section_payloads(sections@),
            out@ == head + section_bodies(payloads.take(j as int)),
        decreases sections@.len() - j,
    {
        let len = clamp_u32(sections[j].payload.len());
        push_u32(&mut out, len);
        let n = sections[j].payload.len();
        push_bytes(&mut out, sections[j].payload.as_slice(), n);
        proof {
            assert(payloads.take(j + 1).drop_last() =~= payloads.take(j as int));
            assert(sections@[j as int].payload@.take(n as int) =~= sections@[j as int].payload@);
        }
        j += 1;
        assert(out@ =~= head + section_bodies(payloads.take(j as int)));
    }
    out
}

/// A packet that carries an error message.
pub fn encode_error_event(message: &str) -> (out: Vec<u8>)
    ensures
        out@ == packet_bytes(seq![SECTION_ERROR], seq![u16_string_bytes(message@)]),
{
    let mut payload: Vec<u8> = Vec::new();
    push_u16_string(&mut payload, message);
    assert(payload@ =~= u16_string_bytes(message@));
    let mut sections: Vec<PacketSection> = Vec::new();
    sections.push(PacketSection { id: SECTION_ERROR, payload });
    let out = encode_packet(sections);
    assert(section_ids(sections@) =~= seq![SECTION_ERROR]);
    assert(section_payloads(sections@) =~= seq![u16_string_bytes(message@)]);
    out
}

/// A packet that reports that the bridge stopped.
pub fn encode_stopped_event() -> (out: Vec<u8>)
    ensures
        out@ == packet_bytes(seq![SECTION_STOPPED], seq![Seq::<u8>::empty()]),
{
    let mut sections: Vec<PacketSection> = Vec::new();
    sections.push(PacketSection { id: SECTION_STOPPED, payload: Vec::new() });
    let out = encode_packet(sections);
    assert(section_ids(sections@) =~= seq![SECTION_STOPPED]);
    assert(section_payloads(sections@) =~= seq![Seq::<u8>::empty()]);
    out
}

} // verus!
