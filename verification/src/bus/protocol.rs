//! The frame codec: bytes to frames and back.

use crate::bus::error::{ParsingError, ParsingErrorKind};
use crate::bus::grammar::{
    after_delimiter, command_of, framing, header, is_blank, keyword, lemma_keyword_utf8,
    lemma_next_crlf, lemma_next_delimiter, next_crlf, next_delimiter, Command, Frame, Framing,
    Header, CR, LF, SPACE,
};
use crate::bus::octets::{
    buffer_freeze, buffer_from_slice, bytes_as_slice, bytes_content, bytes_len,
};
use bytes::Bytes;
use std::str::Utf8Error;
use vstd::prelude::*;
use vstd::slice::slice_subrange;
use vstd::utf8::{decode_utf8, encode_utf8, valid_utf8};

verus! {

/// A published payload together with its length. Nothing is stamped on it:
/// the bus keeps no offsets.
#[derive(Debug, Clone, PartialEq, Eq)]
pub struct Message(usize, pub Bytes);

impl View for Message {
    type V = Seq<u8>;

    closed spec fn view(&self) -> Seq<u8> {
        bytes_content(self.1)
    }
}

impl Message {
    /// The length recorded when the message was made.
    pub closed spec fn recorded_len(&self) -> usize {
        self.0
    }

    /// Wraps a payload.
    pub fn new(buf: Bytes) -> (message: Message)
        ensures
            message@ == bytes_content(buf),
            message.recorded_len() == bytes_content(buf).len(),
    {
        Message(bytes_len(&buf), buf)
    }

    /// The payload.
    pub fn payload(&self) -> (payload: &Bytes)
        ensures
            bytes_content(*payload) == self@,
    {
        &self.1
    }

    /// Gives up the message for its payload.
    pub fn into_payload(self) -> (payload: Bytes)
        ensures
            bytes_content(payload) == self@,
    {
        self.1
    }

    /// The length recorded when the message was made.
    pub fn len(&self) -> (n: usize)
        ensures
            n == self.recorded_len(),
    {
        self.0
    }
}

/// One decoded protocol unit.
#[derive(Debug, Clone, PartialEq, Eq)]
pub enum MethodFrames {
    /// `MAKE subject\r\n`
    Make(String),
    /// `DEL subject\r\n`
    Delete(String),
    /// `PUB subject\r\n<payload>\r\n`
    Publish(String, Bytes),
    /// `SUB subject\r\n`
    Subscribe(String),
}

impl View for MethodFrames {
    type V = Frame;

    open spec fn view(&self) -> Frame {
        match self {
            MethodFrames::Make(subject) => Frame::Make(subject@),
            MethodFrames::Delete(subject) => Frame::Delete(subject@),
            MethodFrames::Publish(subject, payload) => Frame::Publish(
                subject@,
                bytes_content(*payload),
            ),
            MethodFrames::Subscribe(subject) => Frame::Subscribe(subject@),
        }
    }
}

/// A read position in a borrowed byte buffer.
#[derive(Debug, Clone, Copy)]
pub struct Cursor<'a> {
    inner: &'a [u8],
    pos: usize,
}

impl<'a> Cursor<'a> {
    /// The bytes under the cursor, all of them.
    pub closed spec fn bytes(&self) -> Seq<u8> {
        self.inner@
    }

    /// The offset of the next byte to read.
    pub closed spec fn offset(&self) -> int {
        self.pos as int
    }

    /// A cursor at the start of `inner`.
    pub fn new(inner: &'a [u8]) -> (cursor: Cursor<'a>)
        ensures
            cursor.bytes() == inner@,
            cursor.offset() == 0,
    {
        Cursor { inner, pos: 0 }
    }

    /// The offset of the next byte to read.
    pub fn position(&self) -> (pos: usize)
        ensures
            pos == self.offset(),
    {
        self.pos
    }

    /// Moves the cursor. Any offset is accepted; one behind the end reads
    /// as an input that has run out.
    pub fn set_position(&mut self, pos: usize)
        ensures
            final(self).bytes() == old(self).bytes(),
            final(self).offset() == pos,
    {
        self.pos = pos;
    }

    /// The bytes under the cursor, all of them.
    pub fn get_ref(&self) -> (inner: &'a [u8])
        ensures
            inner@ == self.bytes(),
    {
        self.inner
    }
}

/// The error of `std::str::from_utf8`. Opaque.
#[verifier::external_type_specification]
#[verifier::external_body]
pub struct ExUtf8Error(std::str::Utf8Error);

/// `std::str::from_utf8`: the bytes as a string slice when they are valid
/// UTF-8, an error when they are not. The slice that comes back is made of
/// the very bytes that went in.
#[verifier::external_body]
fn str_from_utf8<'a>(bytes: &'a [u8]) -> (r: Result<&'a str, Utf8Error>)
    ensures
        r is Ok == valid_utf8(bytes@),
        r matches Ok(s) ==> encode_utf8(s@) == bytes@,
{
    std::str::from_utf8(bytes)
}

/// The first offset at or after `from` where a token ends.
fn find_delimiter(bytes: &[u8], from: usize) -> (d: usize)
    ensures
        d == next_delimiter(bytes@, from as int),
{
    let n = bytes.len();
    let mut i = from;
    while i < n && n - i > 1
        invariant
            from <= i,
            n == bytes@.len(),
            next_delimiter(bytes@, from as int) == next_delimiter(bytes@, i as int),
        decreases n - i,
    {
        if bytes[i] == SPACE || (bytes[i] == CR && bytes[i + 1] == LF) {
            return i;
        }
        i += 1;
    }
    n
}

/// The first offset at or after `from` where a line terminator starts.
fn find_crlf(bytes: &[u8], from: usize) -> (d: usize)
    ensures
        d == next_crlf(bytes@, from as int),
{
    let n = bytes.len();
    let mut i = from;
    while i < n && n - i > 1
        invariant
            from <= i,
            n == bytes@.len(),
            next_crlf(bytes@, from as int) == next_crlf(bytes@, i as int),
        decreases n - i,
    {
        if bytes[i] == CR && bytes[i + 1] == LF {
            return i;
        }
        i += 1;
    }
    n
}

/// The command that a token spells.
fn command_from(token: &[u8]) -> (r: Option<Command>)
    ensures
        r == command_of(token@),
{
    if token.len() == 4 && token[0] == 0x4d && token[1] == 0x41 && token[2] == 0x4b && token[3]
        == 0x45 {
        Some(Command::Make)
    } else if token.len() == 3 && token[0] == 0x44 && token[1] == 0x45 && token[2] == 0x4c {
        Some(Command::Delete)
    } else if token.len() == 3 && token[0] == 0x50 && token[1] == 0x55 && token[2] == 0x42 {
        Some(Command::Publish)
    } else if token.len() == 3 && token[0] == 0x53 && token[1] == 0x55 && token[2] == 0x42 {
        Some(Command::Subscribe)
    } else {
        proof {
            let make = keyword(Command::Make);
            let delete = keyword(Command::Delete);
            let publish = keyword(Command::Publish);
            let subscribe = keyword(Command::Subscribe);
            assert(make.len() == 4 && make[0] == 0x4d && make[1] == 0x41 && make[2] == 0x4b
                && make[3] == 0x45);
            assert(delete.len() == 3 && delete[0] == 0x44 && delete[1] == 0x45 && delete[2]
                == 0x4c);
            assert(publish.len() == 3 && publish[0] == 0x50 && publish[1] == 0x55 && publish[2]
                == 0x42);
            assert(subscribe.len() == 3 && subscribe[0] == 0x53 && subscribe[1] == 0x55
                && subscribe[2] == 0x42);
        }
        None
    }
}

/// Whether no byte of the token is ASCII whitespace.
fn free_of_blanks(token: &[u8]) -> (r: bool)
    ensures
        r == forall|i: int| 0 <= i < token@.len() ==> !is_blank(#[trigger] token@[i]),
{
    let mut i: usize = 0;
    while i < token.len()
        invariant
            i <= token@.len(),
            forall|j: int| 0 <= j < i ==> !is_blank(#[trigger] token@[j]),
        decreases token@.len() - i,
    {
        let b = token[i];
        if b == 0x20 || b == 0x09 || b == 0x0a || b == 0x0c || b == 0x0d {
            return false;
        }
        i += 1;
    }
    true
}

/// Reads one token: the bytes from the cursor up to the next space or line
/// terminator, as text. The cursor moves behind the delimiter.
///
/// Fails as incomplete, and leaves the cursor alone, where no delimiter
/// follows; fails as malformed where the token is not valid UTF-8.
pub fn get_string<'a>(src: &mut Cursor<'a>) -> (r: Result<&'a str, ParsingError>)
    ensures
        final(src).bytes() == old(src).bytes(),
        ({
            let s = old(src).bytes();
            let from = old(src).offset();
            let d = next_delimiter(s, from);
            if d >= s.len() {
                &&& r == Err::<&str, ParsingError>(
                    ParsingError { kind: ParsingErrorKind::Incomplete },
                )
                &&& final(src).offset() == from
            } else {
                &&& final(src).offset() == after_delimiter(s, d)
                &&& match r {
                    Ok(token) => valid_utf8(s.subrange(from, d)) && token@ == decode_utf8(
                        s.subrange(from, d),
                    ) && encode_utf8(token@) == s.subrange(from, d),
                    Err(e) => !valid_utf8(s.subrange(from, d)) && e.kind
                        == ParsingErrorKind::Malformed,
                }
            }
        }),
{
    broadcast use vstd::utf8::encode_utf8_decode_utf8;

    let bytes = src.get_ref();
    let start = src.position();
    let d = find_delimiter(bytes, start);
    proof {
        lemma_next_delimiter(bytes@, start as int);
    }
    if d >= bytes.len() {
        return Err(ParsingError::incomplete());
    }
    if bytes[d] == SPACE {
        src.set_position(d + 1);
    } else {
        src.set_position(d + 2);
    }
    match str_from_utf8(slice_subrange(bytes, start, d)) {
        Ok(token) => Ok(token),
        Err(_) => Err(ParsingError::malformed()),
    }
}

/// Reads a payload: the bytes from the cursor up to the next line
/// terminator, copied out. The cursor moves behind the terminator.
///
/// Fails as incomplete, and leaves the cursor alone, where no line
/// terminator follows.
pub fn get_bulk<'a>(src: &mut Cursor<'a>) -> (r: Result<Bytes, ParsingError>)
    ensures
        final(src).bytes() == old(src).bytes(),
        ({
            let s = old(src).bytes();
            let from = old(src).offset();
            let d = next_crlf(s, from);
            match r {
                Ok(payload) => d < s.len() && bytes_content(payload) == s.subrange(from, d)
                    && final(src).offset() == d + 2,
                Err(e) => d >= s.len() && e.kind == ParsingErrorKind::Incomplete && final(src).offset() == from,
            }
        }),
{
    let bytes = src.get_ref();
    let start = src.position();
    let d = find_crlf(bytes, start);
    proof {
        lemma_next_crlf(bytes@, start as int);
    }
    if d >= bytes.len() {
        return Err(ParsingError::incomplete());
    }
    src.set_position(d + 2);
    let b = buffer_from_slice(slice_subrange(bytes, start, d));
    Ok(buffer_freeze(b))
}

/// Reads a command line. On success the cursor stands behind the line; on
/// failure it is where it was.
fn scan_header<'a>(buf: &mut Cursor<'a>) -> (r: Result<(Command, &'a str), ParsingError>)
    ensures
        final(buf).bytes() == old(buf).bytes(),
        match header(old(buf).bytes(), old(buf).offset()) {
            Header::Found { command, subject, next } => r matches Ok(found) && found.0 == command
                && found.1@ == subject && final(buf).offset() == next,
            Header::Incomplete => r matches Err(e) && e.kind == ParsingErrorKind::Incomplete
                && final(buf).offset() == old(buf).offset(),
            Header::Malformed => r matches Err(e) && e.kind == ParsingErrorKind::Malformed
                && final(buf).offset() == old(buf).offset(),
        },
{
    let bytes = buf.get_ref();
    let start = buf.position();
    let ghost s = bytes@;
    proof {
        lemma_next_delimiter(s, start as int);
    }
    let ghost k = next_delimiter(s, start as int);
    let method = match get_string(buf) {
        Ok(method) => method,
        Err(e) => {
            proof {
                if k < s.len() && command_of(s.subrange(start as int, k)) is Some {
                    lemma_keyword_utf8(command_of(s.subrange(start as int, k)).unwrap());
                }
            }
            buf.set_position(start);
            return Err(e);
        },
    };
    let command = match command_from(method.as_bytes()) {
        Some(command) => command,
        None => {
            buf.set_position(start);
            return Err(ParsingError::malformed());
        },
    };
    let subject_start = buf.position();
    if subject_start - start != method.len() + 1 {
        buf.set_position(start);
        return Err(ParsingError::malformed());
    }
    proof {
        lemma_next_delimiter(s, k + 1);
    }
    let subject = match get_string(buf) {
        Ok(subject) => subject,
        Err(e) => {
            buf.set_position(start);
            return Err(e);
        },
    };
    let after = buf.position();
    if after - subject_start != subject.len() + 2 || subject.len() == 0 || !free_of_blanks(
        subject.as_bytes(),
    ) {
        buf.set_position(start);
        return Err(ParsingError::malformed());
    }
    Ok((command, subject))
}

/// The frame codec. It keeps no state: every call reads the bytes under the
/// cursor it is given.
pub struct Parser;

impl Parser {
    /// Looks for a whole frame at the cursor without building it. On
    /// success the cursor marks the end of the frame; otherwise it is where
    /// it was, and the error says whether more bytes may help.
    pub fn check(buf: &mut Cursor) -> (r: Result<(), ParsingError>)
        ensures
            final(buf).bytes() == old(buf).bytes(),
            match framing(old(buf).bytes(), old(buf).offset()) {
                Framing::Complete(_, end) => r is Ok && final(buf).offset() == end,
                Framing::Incomplete => r matches Err(e) && e.kind == ParsingErrorKind::Incomplete
                    && final(buf).offset() == old(buf).offset(),
                Framing::Malformed => r matches Err(e) && e.kind == ParsingErrorKind::Malformed
                    && final(buf).offset() == old(buf).offset(),
            },
    {
        let start = buf.position();
        let (command, _) = match scan_header(buf) {
            Ok(found) => found,
            Err(e) => {
                return Err(e);
            },
        };
        match command {
            Command::Publish => {
                let bytes = buf.get_ref();
                let next = buf.position();
                let q = find_crlf(bytes, next);
                proof {
                    lemma_next_crlf(bytes@, next as int);
                }
                if q >= bytes.len() {
                    buf.set_position(start);
                    return Err(ParsingError::incomplete());
                }
                buf.set_position(q + 2);
                Ok(())
            },
            _ => Ok(()),
        }
    }

    /// Extracts the frame at the cursor and moves the cursor behind it.
    /// Succeeds on exactly the inputs on which [`Parser::check`] does, and
    /// fails on the others as it does.
    pub fn parse(buf: &mut Cursor) -> (r: Result<MethodFrames, ParsingError>)
        ensures
            final(buf).bytes() == old(buf).bytes(),
            match framing(old(buf).bytes(), old(buf).offset()) {
                Framing::Complete(frame, end) => r matches Ok(found) && found@ == frame && final(buf).offset() == end,
                Framing::Incomplete => r matches Err(e) && e.kind == ParsingErrorKind::Incomplete
                    && final(buf).offset() == old(buf).offset(),
                Framing::Malformed => r matches Err(e) && e.kind == ParsingErrorKind::Malformed
                    && final(buf).offset() == old(buf).offset(),
            },
    {
        let start = buf.position();
        let (command, subject) = match scan_header(buf) {
            Ok(found) => found,
            Err(e) => {
                return Err(e);
            },
        };
        let subject = subject.to_owned();
        match command {
            Command::Publish => match get_bulk(buf) {
                Ok(bytes) => Ok(MethodFrames::Publish(subject, bytes)),
                Err(e) => {
                    buf.set_position(start);
                    Err(e)
                },
            },
            Command::Subscribe => Ok(MethodFrames::Subscribe(subject)),
            Command::Make => Ok(MethodFrames::Make(subject)),
            Command::Delete => Ok(MethodFrames::Delete(subject)),
        }
    }
}

impl MethodFrames {
    /// The subject named by the frame.
    pub fn subject(&self) -> (subject: &str)
        ensures
            subject@ == self@.subject(),
    {
        match self {
            MethodFrames::Make(subject) => subject.as_str(),
            MethodFrames::Delete(subject) => subject.as_str(),
            MethodFrames::Publish(subject, _) => subject.as_str(),
            MethodFrames::Subscribe(subject) => subject.as_str(),
        }
    }

    /// The bytes of the frame on the wire. Whether a peer reads the same
    /// frame back is a matter of [`Frame::well_formed`].
    pub fn encode(&self) -> (out: Vec<u8>)
        ensures
            out@ == self@.wire(),
    {
        let mut out: Vec<u8> = Vec::new();
        match self {
            MethodFrames::Make(_) => {
                out.push(0x4d);
                out.push(0x41);
                out.push(0x4b);
                out.push(0x45);
            },
            MethodFrames::Delete(_) => {
                out.push(0x44);
                out.push(0x45);
                out.push(0x4c);
            },
            MethodFrames::Publish(_, _) => {
                out.push(0x50);
                out.push(0x55);
                out.push(0x42);
            },
            MethodFrames::Subscribe(_) => {
                out.push(0x53);
                out.push(0x55);
                out.push(0x42);
            },
        }
        assert(out@ =~= keyword(self@.command()));
        out.push(SPACE);
        out.extend_from_slice(self.subject().as_bytes());
        out.push(CR);
        out.push(LF);
        match self {
            MethodFrames::Publish(_, payload) => {
                out.extend_from_slice(bytes_as_slice(payload));
                out.push(CR);
                out.push(LF);
            },
            _ => {},
        }
        assert(out@ =~= self@.wire());
        out
    }
}

} // verus!
