//! DNS packets: a fixed buffer of 512 bytes with a cursor, and the header,
//! questions and records that are read out of it.

use vstd::prelude::*;
use vstd::std_specs::convert::FromSpecImpl;
use vstd::string::StringExecFns;

verus! {

/// The size of a packet buffer: a DNS message over UDP has at most 512
/// bytes.
pub const PACKET_SIZE: usize = 512;

/// Why a packet cannot be read or written.
#[derive(Debug, Clone, Copy, PartialEq, Eq, Structural)]
pub enum PacketError {
    /// A position at or behind the end of the buffer was asked for.
    PositionOutOfRange,
    /// The cursor stands at the end of the buffer.
    EndOfBuffer,
    /// A slice was asked for that does not end before the last byte.
    SliceOutOfRange,
    /// A name follows more pointers than the buffer has bytes: it runs in
    /// a circle.
    CircularName,
}

impl PacketError {
    /// The text for a log.
    pub open spec fn text(self) -> Seq<char> {
        match self {
            PacketError::PositionOutOfRange => "pos exceeded buffer length"@,
            PacketError::EndOfBuffer => "End of buffer"@,
            PacketError::SliceOutOfRange => "pos + len exceeded buffer length"@,
            PacketError::CircularName => "name runs in a circle"@,
        }
    }

    /// Renders the error.
    pub fn to_string(&self) -> (s: String)
        ensures
            s@ == self.text(),
    {
        match self {
            PacketError::PositionOutOfRange => "pos exceeded buffer length".to_owned(),
            PacketError::EndOfBuffer => "End of buffer".to_owned(),
            PacketError::SliceOutOfRange => "pos + len exceeded buffer length".to_owned(),
            PacketError::CircularName => "name runs in a circle".to_owned(),
        }
    }
}

/// Two bytes as a number, the first byte being the high one.
pub open spec fn be16(hi: u8, lo: u8) -> u16 {
    ((hi as u16) << 8) | (lo as u16)
}

/// Four bytes as a number, the first byte being the highest.
pub open spec fn be32(b3: u8, b2: u8, b1: u8, b0: u8) -> u32 {
    ((b3 as u32) << 24) | ((b2 as u32) << 16) | ((b1 as u32) << 8) | (b0 as u32)
}

/// The byte of `value` that stands `shift` bits above the lowest.
pub open spec fn byte_of(value: u32, shift: u32) -> u8 {
    ((value >> shift) & 0xFF) as u8
}

/// A number of 16 bits is read back from the two bytes it is written as.
pub proof fn lemma_u16_round_trip(value: u16)
    ensures
        be16((value >> 8) as u8, (value & 0xFF) as u8) == value,
{
    assert(((((value >> 8) as u8) as u16) << 8) | (((value & 0xFF) as u8) as u16) == value)
        by (bit_vector);
}

/// A number of 32 bits is read back from the four bytes it is written as.
pub proof fn lemma_u32_round_trip(value: u32)
    ensures
        be32(byte_of(value, 24), byte_of(value, 16), byte_of(value, 8), byte_of(value, 0))
            == value,
{
    assert((((((value >> 24u32) & 0xFF) as u8) as u32) << 24) | (((((value >> 16u32) & 0xFF)
        as u8) as u32) << 16) | (((((value >> 8u32) & 0xFF) as u8) as u32) << 8) | ((((value
        >> 0u32) & 0xFF) as u8) as u32) == value) by (bit_vector);
}

/// Where the cursor stands after an attempt to pass over `count` bytes
/// from `pos`, one at a time: it stops at the end of the buffer, and a
/// cursor that is already there or beyond does not move.
pub open spec fn advanced(pos: int, count: int) -> int {
    if pos >= PACKET_SIZE {
        pos
    } else if pos + count > PACKET_SIZE {
        PACKET_SIZE as int
    } else {
        pos + count
    }
}

/// A packet buffer with a cursor.
#[derive(Debug)]
pub struct BytesBuffer {
    pub buf: [u8; 512],
    pos: usize,
}

impl BytesBuffer {
    /// The bytes of the buffer, all 512 of them.
    pub closed spec fn bytes(&self) -> Seq<u8> {
        self.buf@
    }

    /// The position of the cursor.
    pub closed spec fn position(&self) -> int {
        self.pos as int
    }

    /// A buffer of zeros with the cursor at the start.
    pub fn new() -> (buffer: BytesBuffer)
        ensures
            buffer.bytes() == Seq::new(PACKET_SIZE as nat, |i: int| 0u8),
            buffer.position() == 0,
    {
        let buffer = BytesBuffer { buf: [0; 512], pos: 0 };
        assert(buffer.bytes() =~= Seq::new(PACKET_SIZE as nat, |i: int| 0u8));
        buffer
    }

    /// A buffer over the given bytes with the cursor at the start.
    pub fn from_bytes(buf: [u8; 512]) -> (buffer: BytesBuffer)
        ensures
            buffer.bytes() == buf@,
            buffer.position() == 0,
    {
        BytesBuffer { buf, pos: 0 }
    }

    /// The size of the buffer.
    pub fn len(&self) -> (n: usize)
        ensures
            n == PACKET_SIZE,
            n == self.bytes().len(),
    {
        self.buf.len()
    }

    /// The position of the cursor.
    pub fn cur_pos(&self) -> (pos: usize)
        ensures
            pos == self.position(),
    {
        self.pos
    }

    /// Moves the cursor to `pos`, which has to lie inside the buffer.
    pub fn seek(&mut self, pos: usize) -> (r: Result<usize, PacketError>)
        ensures
            final(self).bytes() == old(self).bytes(),
            pos < PACKET_SIZE ==> r == Ok::<usize, PacketError>(pos) && final(self).position()
                == pos,
            pos >= PACKET_SIZE ==> r == Err::<usize, PacketError>(PacketError::PositionOutOfRange)
                && final(self).position() == old(self).position(),
    {
        if pos > self.len() - 1 {
            return Err(PacketError::PositionOutOfRange);
        }
        self.pos = pos;
        Ok(self.pos)
    }

    /// The byte at `pos`. The cursor does not move.
    pub fn get(&mut self, pos: usize) -> (r: Result<u8, PacketError>)
        ensures
            final(self).bytes() == old(self).bytes(),
            final(self).position() == old(self).position(),
            pos < PACKET_SIZE ==> r == Ok::<u8, PacketError>(old(self).bytes()[pos as int]),
            pos >= PACKET_SIZE ==> r == Err::<u8, PacketError>(PacketError::PositionOutOfRange),
    {
        if pos > self.len() - 1 {
            return Err(PacketError::PositionOutOfRange);
        }
        Ok(self.buf[pos])
    }

    /// The byte under the cursor; the cursor moves on by one.
    pub fn read(&mut self) -> (r: Result<u8, PacketError>)
        ensures
            final(self).bytes() == old(self).bytes(),
            final(self).position() == advanced(old(self).position(), 1),
            old(self).position() < PACKET_SIZE ==> r == Ok::<u8, PacketError>(
                old(self).bytes()[old(self).position()],
            ),
            old(self).position() >= PACKET_SIZE ==> r == Err::<u8, PacketError>(
                PacketError::EndOfBuffer,
            ),
    {
        if self.pos > self.len() - 1 {
            return Err(PacketError::EndOfBuffer);
        }
        let res = self.buf[self.pos];
        self.pos += 1;
        Ok(res)
    }

    /// The two bytes under the cursor as a number, high byte first; the
    /// cursor moves on by two. Where fewer than two bytes are left, the
    /// cursor ends at the end of the buffer.
    pub fn read_u16(&mut self) -> (r: Result<u16, PacketError>)
        ensures
            final(self).bytes() == old(self).bytes(),
            final(self).position() == advanced(old(self).position(), 2),
            old(self).position() + 2 <= PACKET_SIZE ==> r == Ok::<u16, PacketError>(
                be16(
                    old(self).bytes()[old(self).position()],
                    old(self).bytes()[old(self).position() + 1],
                ),
            ),
            old(self).position() + 2 > PACKET_SIZE ==> r == Err::<u16, PacketError>(
                PacketError::EndOfBuffer,
            ),
    {
        if self.pos > self.len() - 1 {
            return Err(PacketError::EndOfBuffer);
        }
        let hi = self.read()?;
        let lo = self.read()?;
        let res = ((hi as u16) << 8) | (lo as u16);
        Ok(res)
    }

    /// The four bytes under the cursor as a number, highest byte first; the
    /// cursor moves on by four. Where fewer than four bytes are left, the
    /// cursor ends at the end of the buffer.
    pub fn read_u32(&mut self) -> (r: Result<u32, PacketError>)
        ensures
            final(self).bytes() == old(self).bytes(),
            final(self).position() == advanced(old(self).position(), 4),
            old(self).position() + 4 <= PACKET_SIZE ==> r == Ok::<u32, PacketError>(
                be32(
                    old(self).bytes()[old(self).position()],
                    old(self).bytes()[old(self).position() + 1],
                    old(self).bytes()[old(self).position() + 2],
                    old(self).bytes()[old(self).position() + 3],
                ),
            ),
            old(self).position() + 4 > PACKET_SIZE ==> r == Err::<u32, PacketError>(
                PacketError::EndOfBuffer,
            ),
    {
        if self.pos > self.len() - 1 {
            return Err(PacketError::EndOfBuffer);
        }
        let b3 = self.read()?;
        let b2 = self.read()?;
        let b1 = self.read()?;
        let b0 = self.read()?;
        let res = ((b3 as u32) << 24) | ((b2 as u32) << 16) | ((b1 as u32) << 8) | (b0 as u32);
        Ok(res)
    }

    /// The `len` bytes from `pos` on. The slice has to end before the last
    /// byte of the buffer. The cursor does not move.
    pub fn get_slice(&mut self, pos: usize, len: usize) -> (r: Result<&[u8], PacketError>)
        ensures
            final(self).bytes() == old(self).bytes(),
            final(self).position() == old(self).position(),
            pos + len < PACKET_SIZE ==> (r matches Ok(slice) && slice@ == old(
                self,
            ).bytes().subrange(pos as int, pos + len)),
            pos + len >= PACKET_SIZE ==> (r matches Err(e) && e == PacketError::SliceOutOfRange),
    {
        if pos > self.len() - 1 || len > self.len() - 1 - pos {
            return Err(PacketError::SliceOutOfRange);
        }
        Ok(vstd::slice::slice_subrange(self.buf.as_slice(), pos, pos + len))
    }

    /// Puts a byte under the cursor; the cursor moves on by one.
    pub fn write(&mut self, b: u8) -> (r: Result<(), PacketError>)
        ensures
            final(self).position() == advanced(old(self).position(), 1),
            old(self).position() < PACKET_SIZE ==> r is Ok && final(self).bytes() == old(
                self,
            ).bytes().update(old(self).position(), b),
            old(self).position() >= PACKET_SIZE ==> r == Err::<(), PacketError>(
                PacketError::EndOfBuffer,
            ) && final(self).bytes() == old(self).bytes(),
    {
        if self.pos > self.len() - 1 {
            return Err(PacketError::EndOfBuffer);
        }
        self.buf[self.pos] = b;
        self.pos += 1;
        Ok(())
    }

    /// Puts the two bytes of `b` under the cursor, high byte first; the
    /// cursor moves on by two. Where only one byte is left, the high byte
    /// is written all the same.
    pub fn write_u16(&mut self, b: u16) -> (r: Result<(), PacketError>)
        ensures
            final(self).position() == advanced(old(self).position(), 2),
            final(self).bytes() == written(
                old(self).bytes(),
                old(self).position(),
                seq![(b >> 8) as u8, (b & 0xFF) as u8],
            ),
            old(self).position() + 2 <= PACKET_SIZE ==> r is Ok,
            old(self).position() + 2 > PACKET_SIZE ==> r == Err::<(), PacketError>(
                PacketError::EndOfBuffer,
            ),
    {
        let ghost data = seq![(b >> 8) as u8, (b & 0xFF) as u8];
        proof {
            assert(self.bytes().len() == PACKET_SIZE);
        }
        let first = self.write((b >> 8) as u8);
        proof {
            assert(self.bytes() =~= written(old(self).bytes(), old(self).position(), data.take(1)));
            if first is Err {
                assert(self.bytes() =~= written(old(self).bytes(), old(self).position(), data));
            }
        }
        first?;
        let second = self.write((b & 0xFF) as u8);
        proof {
            assert(self.bytes() =~= written(old(self).bytes(), old(self).position(), data));
        }
        second?;
        Ok(())
    }

    /// Puts the four bytes of `b` under the cursor, highest byte first; the
    /// cursor moves on by four. Where fewer than four bytes are left, those
    /// that fit are written all the same.
    pub fn write_u32(&mut self, b: u32) -> (r: Result<(), PacketError>)
        ensures
            final(self).position() == advanced(old(self).position(), 4),
            final(self).bytes() == written(
                old(self).bytes(),
                old(self).position(),
                seq![byte_of(b, 24), byte_of(b, 16), byte_of(b, 8), byte_of(b, 0)],
            ),
            old(self).position() + 4 <= PACKET_SIZE ==> r is Ok,
            old(self).position() + 4 > PACKET_SIZE ==> r == Err::<(), PacketError>(
                PacketError::EndOfBuffer,
            ),
    {
        let ghost data = seq![byte_of(b, 24), byte_of(b, 16), byte_of(b, 8), byte_of(b, 0)];
        let ghost start = old(self).position();
        let ghost before = old(self).bytes();
        proof {
            assert(self.bytes().len() == PACKET_SIZE);
        }
        let first = self.write(((b >> 24) & 0xFF) as u8);
        proof {
            assert(self.bytes() =~= written(before, start, data.take(1)));
            if first is Err {
                assert(self.bytes() =~= written(before, start, data));
            }
        }
        first?;
        let second = self.write(((b >> 16) & 0xFF) as u8);
        proof {
            assert(self.bytes() =~= written(before, start, data.take(2)));
            if second is Err {
                assert(self.bytes() =~= written(before, start, data));
            }
        }
        second?;
        let third = self.write(((b >> 8) & 0xFF) as u8);
        proof {
            assert(self.bytes() =~= written(before, start, data.take(3)));
            if third is Err {
                assert(self.bytes() =~= written(before, start, data));
            }
        }
        third?;
        let fourth = self.write(((b >> 0) & 0xFF) as u8);
        proof {
            assert(self.bytes() =~= written(before, start, data));
        }
        fourth?;
        Ok(())
    }
}

/// The buffer after the bytes of `data` were written from `pos` on, one
/// at a time, for as long as the buffer had room.
pub open spec fn written(bytes: Seq<u8>, pos: int, data: Seq<u8>) -> Seq<u8> {
    Seq::new(
        bytes.len(),
        |j: int|
            if pos <= j < pos + data.len() {
                data[j - pos]
            } else {
                bytes[j]
            },
    )
}

/// A number of 16 bits that was written where it fits is read back from
/// there.
pub proof fn lemma_write_then_read_u16(bytes: Seq<u8>, pos: int, value: u16)
    requires
        bytes.len() == PACKET_SIZE,
        0 <= pos,
        pos + 2 <= PACKET_SIZE,
    ensures
        be16(
            written(bytes, pos, seq![(value >> 8) as u8, (value & 0xFF) as u8])[pos],
            written(bytes, pos, seq![(value >> 8) as u8, (value & 0xFF) as u8])[pos + 1],
        ) == value,
{
    lemma_u16_round_trip(value);
}

/// A number of 32 bits that was written where it fits is read back from
/// there.
pub proof fn lemma_write_then_read_u32(bytes: Seq<u8>, pos: int, value: u32)
    requires
        bytes.len() == PACKET_SIZE,
        0 <= pos,
        pos + 4 <= PACKET_SIZE,
    ensures
        ({
            let after = written(
                bytes,
                pos,
                seq![byte_of(value, 24), byte_of(value, 16), byte_of(value, 8), byte_of(value, 0)],
            );
            be32(after[pos], after[pos + 1], after[pos + 2], after[pos + 3]) == value
        }),
{
    lemma_u32_round_trip(value);
}

/// The response code of a packet.
#[derive(Debug, Clone, Copy, PartialEq, Eq, Structural)]
pub enum ResponseCode {
    NOERROR,
    FORMATERROR,
    SERVERFAIL,
    NAMEERROR,
    NOTIMPL,
    REFUSED,
}

/// The response code that a number stands for; a number without a meaning
/// stands for no error.
pub open spec fn response_code(num: u8) -> ResponseCode {
    if num == 1 {
        ResponseCode::FORMATERROR
    } else if num == 2 {
        ResponseCode::SERVERFAIL
    } else if num == 3 {
        ResponseCode::NAMEERROR
    } else if num == 4 {
        ResponseCode::NOTIMPL
    } else if num == 5 {
        ResponseCode::REFUSED
    } else {
        ResponseCode::NOERROR
    }
}

impl From<u8> for ResponseCode {
    fn from(num: u8) -> (code: ResponseCode) {
        match num {
            1 => ResponseCode::FORMATERROR,
            2 => ResponseCode::SERVERFAIL,
            3 => ResponseCode::NAMEERROR,
            4 => ResponseCode::NOTIMPL,
            5 => ResponseCode::REFUSED,
            _ => ResponseCode::NOERROR,
        }
    }
}

impl FromSpecImpl<u8> for ResponseCode {
    open spec fn obeys_from_spec() -> bool {
        true
    }

    open spec fn from_spec(num: u8) -> ResponseCode {
        response_code(num)
    }
}

/// The header of a packet.
#[derive(Debug, Clone, Copy, PartialEq, Eq, Structural)]
pub struct PacketHeader {
    /// Packet identifier (16 bits).
    pub id: u16,
    /// Query response (1 bit).
    pub qr: bool,
    /// Operation code (4 bits).
    pub op_code: u8,
    /// Authoritative answer (1 bit).
    pub aa: bool,
    /// Truncated message (1 bit).
    pub tc: bool,
    /// Recursion desired (1 bit).
    pub rd: bool,
    /// Recursion available (1 bit).
    pub ra: bool,
    /// Reserved; used for DNSSEC (1 bit).
    pub z: bool,
    /// Response code (4 bits).
    pub r_code: ResponseCode,
    /// Question count (16 bits).
    pub qd_count: u16,
    /// Answer count (16 bits).
    pub an_count: u16,
    /// Authority count (16 bits).
    pub ns_count: u16,
    /// Additional count (16 bits).
    pub ar_count: u16,
}

/// The header that six numbers of 16 bits stand for: the identifier, the
/// flags, and the four counts.
pub open spec fn header_of(id: u16, flags: u16, qd: u16, an: u16, ns: u16, ar: u16) -> PacketHeader {
    let a = (flags >> 8) as u8;
    let b = (flags & 0xFF) as u8;
    PacketHeader {
        id,
        qr: (a & 0x80) > 0,
        op_code: (a >> 3) & 0x0F,
        aa: (a & 0x04) > 0,
        tc: (a & 0x02) > 0,
        rd: (a & 0x01) > 0,
        ra: (b & 0x80) > 0,
        z: (b & 0x40) > 0,
        r_code: response_code(b & 0x0F),
        qd_count: qd,
        an_count: an,
        ns_count: ns,
        ar_count: ar,
    }
}

/// The number of 16 bits that stands at `pos`.
pub open spec fn u16_at(bytes: Seq<u8>, pos: int) -> u16 {
    be16(bytes[pos], bytes[pos + 1])
}

/// The number of 32 bits that stands at `pos`.
pub open spec fn u32_at(bytes: Seq<u8>, pos: int) -> u32 {
    be32(bytes[pos], bytes[pos + 1], bytes[pos + 2], bytes[pos + 3])
}

/// The header that stands at `pos`, in twelve bytes.
pub open spec fn header_at(bytes: Seq<u8>, pos: int) -> PacketHeader {
    header_of(
        u16_at(bytes, pos),
        u16_at(bytes, pos + 2),
        u16_at(bytes, pos + 4),
        u16_at(bytes, pos + 6),
        u16_at(bytes, pos + 8),
        u16_at(bytes, pos + 10),
    )
}

impl PacketHeader {
    /// The header of an empty query: every number zero, every flag off.
    pub fn new() -> (header: PacketHeader)
        ensures
            header == (PacketHeader {
                id: 0,
                qr: false,
                op_code: 0,
                aa: false,
                tc: false,
                rd: false,
                ra: false,
                z: false,
                r_code: ResponseCode::NOERROR,
                qd_count: 0,
                an_count: 0,
                ns_count: 0,
                ar_count: 0,
            }),
    {
        PacketHeader {
            id: 0,
            qr: false,
            op_code: 0,
            aa: false,
            tc: false,
            rd: false,
            ra: false,
            z: false,
            r_code: ResponseCode::from(0),
            qd_count: 0,
            an_count: 0,
            ns_count: 0,
            ar_count: 0,
        }
    }

    /// Reads the header under the cursor: twelve bytes, over which the
    /// cursor moves on. Where fewer are left, the cursor ends at the end of
    /// the buffer.
    pub fn from_buf(buf: &mut BytesBuffer) -> (r: Result<PacketHeader, PacketError>)
        ensures
            final(buf).bytes() == old(buf).bytes(),
            final(buf).position() == advanced(old(buf).position(), 12),
            old(buf).position() + 12 <= PACKET_SIZE ==> r == Ok::<PacketHeader, PacketError>(
                header_at(old(buf).bytes(), old(buf).position()),
            ),
            old(buf).position() + 12 > PACKET_SIZE ==> r == Err::<PacketHeader, PacketError>(
                PacketError::EndOfBuffer,
            ),
    {
        let id = buf.read_u16()?;
        let flags = buf.read_u16()?;
        let a = (flags >> 8) as u8;
        let b = (flags & 0xFF) as u8;
        Ok(
            PacketHeader {
                id,
                qr: (a & 0x80) > 0,
                op_code: (a >> 3) & 0x0F,
                aa: (a & 0x04) > 0,
                tc: (a & 0x02) > 0,
                rd: (a & 0x01) > 0,
                ra: (b & 0x80) > 0,
                z: (b & 0x40) > 0,
                r_code: ResponseCode::from(b & 0x0F),
                qd_count: buf.read_u16()?,
                an_count: buf.read_u16()?,
                ns_count: buf.read_u16()?,
                ar_count: buf.read_u16()?,
            },
        )
    }
}

/// The text that `String::from_utf8_lossy` makes of bytes: their decoding
/// where they are valid UTF-8, and otherwise a text in which each invalid
/// sequence is replaced by U+FFFD.
pub uninterp spec fn lossy_text(bytes: Seq<u8>) -> Seq<char>;

/// The text that `str::to_lowercase` makes of a text, by the Unicode rules
/// for lower case.
pub uninterp spec fn lowercase(text: Seq<char>) -> Seq<char>;

/// `String::from_utf8_lossy`: the bytes as text, with U+FFFD in place of
/// what is not UTF-8. Valid UTF-8 comes back as it is.
#[verifier::external_body]
fn utf8_lossy(bytes: &[u8]) -> (text: String)
    ensures
        text@ == lossy_text(bytes@),
        vstd::utf8::valid_utf8(bytes@) ==> text@ == vstd::utf8::decode_utf8(bytes@),
{
    String::from_utf8_lossy(bytes).into_owned()
}

/// `str::to_lowercase`: the text in lower case.
#[verifier::external_body]
fn to_lowercase(text: &str) -> (lower: String)
    ensures
        lower@ == lowercase(text@),
{
    text.to_lowercase()
}

/// The text of one label of a name.
pub open spec fn label_text(label: Seq<u8>) -> Seq<char> {
    lowercase(lossy_text(label))
}

/// A name with one more label behind it: labels are set apart by dots.
pub open spec fn with_label(name: Seq<char>, first: bool, label: Seq<char>) -> Seq<char> {
    if first {
        name + label
    } else {
        name + "."@ + label
    }
}

/// Appends a label to a name, with a dot before it unless it is the first.
pub fn append_label(name: &mut String, first: bool, label: &str)
    ensures
        final(name)@ == with_label(old(name)@, first, label@),
{
    if !first {
        name.append(".");
    }
    name.append(label);
}

/// How far a name may be followed through pointers. A chain of more
/// pointers than the buffer has bytes has come by the same place twice.
pub const MAX_JUMPS: usize = 512;

/// What the reading of a name came to.
pub struct NameScan {
    /// The name, or why there is none.
    pub name: Result<Seq<char>, PacketError>,
    /// Where the cursor is left.
    pub cursor: int,
}

/// Reads on in a name. `pos` is where the next length byte stands, `name`
/// and `first` are what has been read so far, `cursor` is where the cursor
/// of the buffer stands, `jumped` says whether a pointer was followed, and
/// `jumps` is how many more may be.
///
/// A length byte of zero ends the name. One with its two highest bits set
/// is, with the byte after it, a pointer: the cursor is put behind it and
/// reading goes on where it points. Any other is followed by that many
/// bytes of label. At the end the cursor is put behind the name, unless a
/// pointer was followed: then it stays behind the pointer followed last.
pub open spec fn scan_name(
    bytes: Seq<u8>,
    pos: int,
    name: Seq<char>,
    first: bool,
    cursor: int,
    jumped: bool,
    jumps: nat,
) -> NameScan
    decreases jumps, PACKET_SIZE - pos,
{
    if pos < 0 || pos >= PACKET_SIZE {
        NameScan { name: Err(PacketError::PositionOutOfRange), cursor }
    } else {
        let n = bytes[pos];
        if (n & 0xC0) == 0xC0 {
            if pos + 2 >= PACKET_SIZE {
                NameScan { name: Err(PacketError::PositionOutOfRange), cursor }
            } else if jumps == 0 {
                NameScan { name: Err(PacketError::CircularName), cursor: pos + 2 }
            } else {
                scan_name(
                    bytes,
                    pointer_target(n, bytes[pos + 1]) as int,
                    name,
                    first,
                    pos + 2,
                    true,
                    (jumps - 1) as nat,
                )
            }
        } else if n == 0 {
            NameScan {
                name: Ok(name),
                cursor: if jumped || pos + 1 >= PACKET_SIZE {
                    cursor
                } else {
                    pos + 1
                },
            }
        } else if pos + 1 + n >= PACKET_SIZE {
            NameScan { name: Err(PacketError::SliceOutOfRange), cursor }
        } else {
            scan_name(
                bytes,
                pos + 1 + n,
                with_label(name, first, label_text(bytes.subrange(pos + 1, pos + 1 + n))),
                false,
                cursor,
                jumped,
                jumps,
            )
        }
    }
}

/// Where a pointer points: the low six bits of its first byte and all of
/// its second.
pub open spec fn pointer_target(first: u8, second: u8) -> u16 {
    (((first as u16) ^ 0xC0) << 8) | (second as u16)
}

/// The name that starts under the cursor of a buffer.
pub open spec fn name_at(bytes: Seq<u8>, pos: int) -> NameScan {
    scan_name(bytes, pos, Seq::<char>::empty(), true, pos, false, MAX_JUMPS as nat)
}

impl BytesBuffer {
    /// Reads the name under the cursor: its labels in lower case, with dots
    /// between them. A name may go on elsewhere in the packet by way of a
    /// pointer; one that runs in a circle is refused.
    pub fn get_qname(&mut self) -> (r: Result<String, PacketError>)
        ensures
            final(self).bytes() == old(self).bytes(),
            final(self).position() == name_at(old(self).bytes(), old(self).position()).cursor,
            match name_at(old(self).bytes(), old(self).position()).name {
                Ok(name) => r matches Ok(found) && found@ == name,
                Err(e) => r matches Err(error) && error == e,
            },
    {
        let mut qname = String::new();
        let mut first = true;
        let mut pos = self.cur_pos();
        let mut jumped = false;
        let mut jumps: usize = MAX_JUMPS;
        let ghost bytes = self.bytes();
        let ghost goal = name_at(bytes, self.position());
        loop
            invariant
                self.bytes() == bytes,
                bytes == old(self).bytes(),
                bytes.len() == PACKET_SIZE,
                goal == name_at(old(self).bytes(), old(self).position()),
                jumps <= MAX_JUMPS,
                goal == scan_name(
                    bytes,
                    pos as int,
                    qname@,
                    first,
                    self.position(),
                    jumped,
                    jumps as nat,
                ),
            decreases
                    jumps,
                    (if pos < 0x10000 {
                        0x10000 - pos
                    } else {
                        0
                    }),
        {
            let num_chars = self.get(pos)?;
            if (num_chars & 0xC0) == 0xC0 {
                self.seek(pos + 2)?;
                let b = self.get(pos + 1)? as u16;
                if jumps == 0 {
                    return Err(PacketError::CircularName);
                }
                let offset = (((num_chars as u16) ^ 0xC0) << 8) | b;
                jumped = true;
                jumps -= 1;
                pos = offset as usize;
                continue;
            }
            pos += 1;
            if num_chars == 0 {
                if !jumped {
                    let _ = self.seek(pos);
                }
                return Ok(qname);
            }
            let label = self.get_slice(pos, num_chars as usize)?;
            let text = utf8_lossy(label);
            let lower = to_lowercase(text.as_str());
            append_label(&mut qname, first, lower.as_str());
            first = false;
            pos += num_chars as usize;
        }
    }
}

/// The type of a query.
#[derive(Debug, Clone, Copy, PartialEq, Eq, Structural)]
pub enum QueryType {
    /// A host address.
    A,
    /// Any other type, by its number.
    UNIMPL(u16),
}

/// The query type that a number stands for.
pub open spec fn query_type(num: u16) -> QueryType {
    if num == 1 {
        QueryType::A
    } else {
        QueryType::UNIMPL(num)
    }
}

impl From<u16> for QueryType {
    fn from(num: u16) -> (qtype: QueryType) {
        match num {
            1 => QueryType::A,
            _ => QueryType::UNIMPL(num),
        }
    }
}

impl FromSpecImpl<u16> for QueryType {
    open spec fn obeys_from_spec() -> bool {
        true
    }

    open spec fn from_spec(num: u16) -> QueryType {
        query_type(num)
    }
}

/// The class of a query.
#[derive(Debug, Clone, Copy, PartialEq, Eq, Structural)]
pub enum QueryClass {
    /// The Internet.
    IN,
    /// Any other class, by its number.
    UNIMPL(u16),
}

/// The query class that a number stands for.
pub open spec fn query_class(num: u16) -> QueryClass {
    if num == 1 {
        QueryClass::IN
    } else {
        QueryClass::UNIMPL(num)
    }
}

impl From<u16> for QueryClass {
    fn from(num: u16) -> (qclass: QueryClass) {
        match num {
            1 => QueryClass::IN,
            _ => QueryClass::UNIMPL(num),
        }
    }
}

impl FromSpecImpl<u16> for QueryClass {
    open spec fn obeys_from_spec() -> bool {
        true
    }

    open spec fn from_spec(num: u16) -> QueryClass {
        query_class(num)
    }
}

/// A question as a value.
pub struct QuestionView {
    pub qname: Seq<char>,
    pub qtype: QueryType,
    pub qclass: QueryClass,
}

/// A question: the name asked about, and the type and class asked for.
#[derive(Debug, PartialEq)]
pub struct DnsQuestion {
    pub qname: String,
    pub qtype: QueryType,
    pub qclass: QueryClass,
}

impl View for DnsQuestion {
    type V = QuestionView;

    open spec fn view(&self) -> QuestionView {
        QuestionView { qname: self.qname@, qtype: self.qtype, qclass: self.qclass }
    }
}

/// What the reading of one item came to: the item or the reason for none,
/// and where the cursor is left.
pub struct Scan<T> {
    pub item: Result<T, PacketError>,
    pub cursor: int,
}

/// The question that starts at `pos`: a name, then type and class in two
/// bytes each.
pub open spec fn question_at(bytes: Seq<u8>, pos: int) -> Scan<QuestionView> {
    let name = name_at(bytes, pos);
    match name.name {
        Err(e) => Scan { item: Err(e), cursor: name.cursor },
        Ok(qname) => Scan {
            item: if name.cursor + 4 <= PACKET_SIZE {
                Ok(
                    QuestionView {
                        qname,
                        qtype: query_type(u16_at(bytes, name.cursor)),
                        qclass: query_class(u16_at(bytes, name.cursor + 2)),
                    },
                )
            } else {
                Err(PacketError::EndOfBuffer)
            },
            cursor: advanced(name.cursor, 4),
        },
    }
}

impl DnsQuestion {
    /// A question for the given name, type and class.
    pub fn new(qname: String, qtype: QueryType, qclass: QueryClass) -> (question: DnsQuestion)
        ensures
            question@ == (QuestionView { qname: qname@, qtype, qclass }),
    {
        DnsQuestion { qname, qtype, qclass }
    }

    /// Reads the question under the cursor.
    pub fn from_buf(buf: &mut BytesBuffer) -> (r: Result<DnsQuestion, PacketError>)
        ensures
            final(buf).bytes() == old(buf).bytes(),
            final(buf).position() == question_at(old(buf).bytes(), old(buf).position()).cursor,
            match question_at(old(buf).bytes(), old(buf).position()).item {
                Ok(question) => r matches Ok(found) && found@ == question,
                Err(e) => r matches Err(error) && error == e,
            },
    {
        let qname = buf.get_qname()?;
        let qtype = QueryType::from(buf.read_u16()?);
        let qclass = QueryClass::from(buf.read_u16()?);
        Ok(DnsQuestion { qname, qtype, qclass })
    }
}

/// A record as a value.
pub enum RecordView {
    UNIMPL { domain: Seq<char>, qtype: QueryType, data_len: u16, ttl: u32 },
    A { domain: Seq<char>, addr: Seq<u8>, ttl: u32 },
}

/// A resource record. Only host addresses are read in full; of any other
/// type the name, the type, the length of the data and the time to live
/// are kept.
#[derive(Debug, PartialEq)]
pub enum DnsRecord {
    UNIMPL { domain: String, qtype: QueryType, data_len: u16, ttl: u32 },
    A { domain: String, addr: [u8; 4], ttl: u32 },
}

impl View for DnsRecord {
    type V = RecordView;

    open spec fn view(&self) -> RecordView {
        match self {
            DnsRecord::UNIMPL { domain, qtype, data_len, ttl } => RecordView::UNIMPL {
                domain: domain@,
                qtype: *qtype,
                data_len: *data_len,
                ttl: *ttl,
            },
            DnsRecord::A { domain, addr, ttl } => RecordView::A {
                domain: domain@,
                addr: addr@,
                ttl: *ttl,
            },
        }
    }
}

/// The four bytes of an address, highest first.
pub open spec fn address_bytes(value: u32) -> Seq<u8> {
    seq![byte_of(value, 24), byte_of(value, 16), byte_of(value, 8), byte_of(value, 0)]
}

/// The record that starts at `pos`: a name, type and class in two bytes
/// each, the time to live in four, the length of the data in two, and for
/// a host address the address in four. The data of any other type is not
/// passed over.
pub open spec fn record_at(bytes: Seq<u8>, pos: int) -> Scan<RecordView> {
    let name = name_at(bytes, pos);
    match name.name {
        Err(e) => Scan { item: Err(e), cursor: name.cursor },
        Ok(domain) => {
            let c = name.cursor;
            if c + 10 > PACKET_SIZE {
                Scan { item: Err(PacketError::EndOfBuffer), cursor: advanced(c, 10) }
            } else {
                let qtype = query_type(u16_at(bytes, c));
                let ttl = u32_at(bytes, c + 4);
                let data_len = u16_at(bytes, c + 8);
                match qtype {
                    QueryType::A => Scan {
                        item: if c + 14 <= PACKET_SIZE {
                            Ok(
                                RecordView::A {
                                    domain,
                                    addr: address_bytes(u32_at(bytes, c + 10)),
                                    ttl,
                                },
                            )
                        } else {
                            Err(PacketError::EndOfBuffer)
                        },
                        cursor: advanced(c, 14),
                    },
                    QueryType::UNIMPL(_) => Scan {
                        item: Ok(RecordView::UNIMPL { domain, qtype, data_len, ttl }),
                        cursor: c + 10,
                    },
                }
            }
        },
    }
}

impl DnsRecord {
    /// Reads the record under the cursor.
    pub fn from_buf(buf: &mut BytesBuffer) -> (r: Result<DnsRecord, PacketError>)
        ensures
            final(buf).bytes() == old(buf).bytes(),
            final(buf).position() == record_at(old(buf).bytes(), old(buf).position()).cursor,
            match record_at(old(buf).bytes(), old(buf).position()).item {
                Ok(record) => r matches Ok(found) && found@ == record,
                Err(e) => r matches Err(error) && error == e,
            },
    {
        let qname = buf.get_qname()?;
        let qtype = QueryType::from(buf.read_u16()?);
        let _qclass = QueryClass::from(buf.read_u16()?);
        let ttl = buf.read_u32()?;
        let data_len = buf.read_u16()?;
        match qtype {
            QueryType::A => {
                let hex_addr = buf.read_u32()?;
                let addr = [
                    ((hex_addr >> 24) & 0xFF) as u8,
                    ((hex_addr >> 16) & 0xFF) as u8,
                    ((hex_addr >> 8) & 0xFF) as u8,
                    ((hex_addr >> 0) & 0xFF) as u8,
                ];
                assert(addr@ =~= address_bytes(hex_addr));
                Ok(DnsRecord::A { domain: qname, addr, ttl })
            },
            QueryType::UNIMPL(_) => Ok(DnsRecord::UNIMPL { domain: qname, qtype, data_len, ttl }),
        }
    }
}

/// A packet as a value.
pub struct PacketView {
    pub header: PacketHeader,
    pub questions: Seq<QuestionView>,
    pub answers: Seq<RecordView>,
    pub authorities: Seq<RecordView>,
    pub resources: Seq<RecordView>,
}

/// A whole packet.
#[derive(Debug, PartialEq)]
pub struct DnsPacket {
    pub header: PacketHeader,
    pub questions: Vec<DnsQuestion>,
    pub answers: Vec<DnsRecord>,
    pub authorities: Vec<DnsRecord>,
    pub resources: Vec<DnsRecord>,
}

impl View for DnsPacket {
    type V = PacketView;

    open spec fn view(&self) -> PacketView {
        PacketView {
            header: self.header,
            questions: Seq::new(self.questions@.len(), |i: int| self.questions@[i]@),
            answers: Seq::new(self.answers@.len(), |i: int| self.answers@[i]@),
            authorities: Seq::new(self.authorities@.len(), |i: int| self.authorities@[i]@),
            resources: Seq::new(self.resources@.len(), |i: int| self.resources@[i]@),
        }
    }
}

/// `count` questions in a row from `pos` on, added to those in `found`.
/// The first that cannot be read ends the reading.
pub open spec fn questions_at(
    bytes: Seq<u8>,
    pos: int,
    count: nat,
    found: Seq<QuestionView>,
) -> Scan<Seq<QuestionView>>
    decreases count,
{
    if count == 0 {
        Scan { item: Ok(found), cursor: pos }
    } else {
        let next = question_at(bytes, pos);
        match next.item {
            Err(e) => Scan { item: Err(e), cursor: next.cursor },
            Ok(question) => questions_at(
                bytes,
                next.cursor,
                (count - 1) as nat,
                found.push(question),
            ),
        }
    }
}

/// `count` records in a row from `pos` on, added to those in `found`. The
/// first that cannot be read ends the reading.
pub open spec fn records_at(bytes: Seq<u8>, pos: int, count: nat, found: Seq<RecordView>) -> Scan<
    Seq<RecordView>,
>
    decreases count,
{
    if count == 0 {
        Scan { item: Ok(found), cursor: pos }
    } else {
        let next = record_at(bytes, pos);
        match next.item {
            Err(e) => Scan { item: Err(e), cursor: next.cursor },
            Ok(record) => records_at(bytes, next.cursor, (count - 1) as nat, found.push(record)),
        }
    }
}

/// The packet that starts at `pos`: the header, then as many questions and
/// as many answers as the header counts. Authorities and additional
/// records are not read.
pub open spec fn packet_at(bytes: Seq<u8>, pos: int) -> Scan<PacketView> {
    if pos + 12 > PACKET_SIZE {
        Scan { item: Err(PacketError::EndOfBuffer), cursor: advanced(pos, 12) }
    } else {
        let header = header_at(bytes, pos);
        let questions = questions_at(
            bytes,
            pos + 12,
            header.qd_count as nat,
            Seq::<QuestionView>::empty(),
        );
        match questions.item {
            Err(e) => Scan { item: Err(e), cursor: questions.cursor },
            Ok(asked) => {
                let answers = records_at(
                    bytes,
                    questions.cursor,
                    header.an_count as nat,
                    Seq::<RecordView>::empty(),
                );
                match answers.item {
                    Err(e) => Scan { item: Err(e), cursor: answers.cursor },
                    Ok(answered) => Scan {
                        item: Ok(
                            PacketView {
                                header,
                                questions: asked,
                                answers: answered,
                                authorities: Seq::<RecordView>::empty(),
                                resources: Seq::<RecordView>::empty(),
                            },
                        ),
                        cursor: answers.cursor,
                    },
                }
            },
        }
    }
}

impl DnsPacket {
    /// An empty packet.
    pub fn new() -> (packet: DnsPacket)
        ensures
            packet@ == (PacketView {
                header: header_of(0, 0, 0, 0, 0, 0),
                questions: Seq::<QuestionView>::empty(),
                answers: Seq::<RecordView>::empty(),
                authorities: Seq::<RecordView>::empty(),
                resources: Seq::<RecordView>::empty(),
            }),
    {
        let packet = DnsPacket {
            header: PacketHeader::new(),
            questions: Vec::new(),
            answers: Vec::new(),
            authorities: Vec::new(),
            resources: Vec::new(),
        };
        assert(packet@.questions =~= Seq::<QuestionView>::empty());
        assert(packet@.answers =~= Seq::<RecordView>::empty());
        assert(packet@.authorities =~= Seq::<RecordView>::empty());
        assert(packet@.resources =~= Seq::<RecordView>::empty());
        assert(header_of(0, 0, 0, 0, 0, 0) == packet.header) by {
            assert((0u16 >> 8) as u8 == 0u8) by (bit_vector);
            assert((0u16 & 0xFF) as u8 == 0u8) by (bit_vector);
            assert(0u8 & 0x80 == 0u8) by (bit_vector);
            assert(0u8 & 0x40 == 0u8) by (bit_vector);
            assert(0u8 & 0x04 == 0u8) by (bit_vector);
            assert(0u8 & 0x02 == 0u8) by (bit_vector);
            assert(0u8 & 0x01 == 0u8) by (bit_vector);
            assert(0u8 & 0x0F == 0u8) by (bit_vector);
            assert((0u8 >> 3) & 0x0F == 0u8) by (bit_vector);
        }
        packet
    }

    /// Reads the packet under the cursor.
    pub fn from_buf(buf: &mut BytesBuffer) -> (r: Result<DnsPacket, PacketError>)
        ensures
            final(buf).bytes() == old(buf).bytes(),
            final(buf).position() == packet_at(old(buf).bytes(), old(buf).position()).cursor,
            match packet_at(old(buf).bytes(), old(buf).position()).item {
                Ok(packet) => r matches Ok(found) && found@ == packet,
                Err(e) => r matches Err(error) && error == e,
            },
    {
        let ghost bytes = buf.bytes();
        let ghost start = buf.position();
        let mut packet = DnsPacket::new();
        assert(packet@.questions.len() == 0 && packet@.answers.len() == 0
            && packet@.authorities.len() == 0 && packet@.resources.len() == 0);
        packet.header = PacketHeader::from_buf(buf)?;
        assert(packet@.questions =~= Seq::<QuestionView>::empty());
        let ghost goal = questions_at(
            bytes,
            start + 12,
            packet.header.qd_count as nat,
            Seq::<QuestionView>::empty(),
        );
        let mut asked: u16 = 0;
        while asked < packet.header.qd_count
            invariant
                buf.bytes() == bytes,
                bytes == old(buf).bytes(),
                start == old(buf).position(),
                start + 12 <= PACKET_SIZE,
                packet.header == header_at(bytes, start),
                asked <= packet.header.qd_count,
                packet.answers@.len() == 0,
                packet.authorities@.len() == 0,
                packet.resources@.len() == 0,
                goal == questions_at(
                    bytes,
                    start + 12,
                    packet.header.qd_count as nat,
                    Seq::<QuestionView>::empty(),
                ),
                goal == questions_at(
                    bytes,
                    buf.position(),
                    (packet.header.qd_count - asked) as nat,
                    packet@.questions,
                ),
            decreases packet.header.qd_count - asked,
        {
            let ghost before = packet@.questions;
            let question = DnsQuestion::from_buf(buf)?;
            packet.questions.push(question);
            assert(packet@.questions =~= before.push(question@));
            asked += 1;
        }
        let ghost after_questions = buf.position();
        let ghost target = records_at(
            bytes,
            after_questions,
            packet.header.an_count as nat,
            Seq::<RecordView>::empty(),
        );
        let mut answered: u16 = 0;
        assert(packet@.answers =~= Seq::<RecordView>::empty());
        while answered < packet.header.an_count
            invariant
                buf.bytes() == bytes,
                bytes == old(buf).bytes(),
                start == old(buf).position(),
                start + 12 <= PACKET_SIZE,
                packet.header == header_at(bytes, start),
                answered <= packet.header.an_count,
                packet.answers@.len() == answered,
                packet.authorities@.len() == 0,
                packet.resources@.len() == 0,
                goal == questions_at(
                    bytes,
                    start + 12,
                    packet.header.qd_count as nat,
                    Seq::<QuestionView>::empty(),
                ),
                goal == (Scan { item: Ok(packet@.questions), cursor: after_questions }),
                target == records_at(
                    bytes,
                    after_questions,
                    packet.header.an_count as nat,
                    Seq::<RecordView>::empty(),
                ),
                target == records_at(
                    bytes,
                    buf.position(),
                    (packet.header.an_count - answered) as nat,
                    packet@.answers,
                ),
            decreases packet.header.an_count - answered,
        {
            let ghost before = packet@.answers;
            let ghost questions = packet@.questions;
            let record = DnsRecord::from_buf(buf)?;
            packet.answers.push(record);
            assert(packet@.answers =~= before.push(record@));
            assert(packet@.questions =~= questions);
            answered += 1;
        }
        assert(packet@.authorities =~= Seq::<RecordView>::empty());
        assert(packet@.resources =~= Seq::<RecordView>::empty());
        Ok(packet)
    }
}

} // verus!
