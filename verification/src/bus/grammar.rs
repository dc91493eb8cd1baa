//! The wire format as mathematics.
//!
//! A frame is a command line, and for `PUB` a payload after it:
//!
//! ```text
//! MAKE <subject>\r\n
//! DEL <subject>\r\n
//! SUB <subject>\r\n
//! PUB <subject>\r\n<payload>\r\n
//! ```
//!
//! [`framing`] says, for any bytes and any offset, whether a frame starts
//! there, which one, and where it ends. The executable codec is proved
//! against it, and the laws at the end of this file are proved of it.

use vstd::prelude::*;
use vstd::utf8::{decode_utf8, encode_utf8, valid_utf8};

verus! {

/// The byte between a keyword and its subject.
pub const SPACE: u8 = 0x20;

/// Carriage return, the first byte of a line terminator.
pub const CR: u8 = 0x0d;

/// Line feed, the second byte of a line terminator.
pub const LF: u8 = 0x0a;

/// The four commands of the protocol.
#[derive(Debug, Clone, Copy, PartialEq, Eq, Structural)]
pub enum Command {
    Make,
    Delete,
    Publish,
    Subscribe,
}

/// One protocol unit as a value: the command, its subject, and for a
/// publish the payload.
pub enum Frame {
    Make(Seq<char>),
    Delete(Seq<char>),
    Publish(Seq<char>, Seq<u8>),
    Subscribe(Seq<char>),
}

/// What a scan of the first line found.
pub enum Header {
    /// A command line ends just before `next`.
    Found { command: Command, subject: Seq<char>, next: int },
    /// The line is not over yet.
    Incomplete,
    /// No command line starts like this.
    Malformed,
}

/// What a scan for a whole frame found.
pub enum Framing {
    /// A frame, and the offset just behind it.
    Complete(Frame, int),
    /// More bytes are needed before anything can be said.
    Incomplete,
    /// No frame starts like this, whatever follows.
    Malformed,
}

/// The keyword that stands for a command on the wire.
pub open spec fn keyword(command: Command) -> Seq<u8> {
    match command {
        Command::Make => seq![0x4du8, 0x41u8, 0x4bu8, 0x45u8],
        Command::Delete => seq![0x44u8, 0x45u8, 0x4cu8],
        Command::Publish => seq![0x50u8, 0x55u8, 0x42u8],
        Command::Subscribe => seq![0x53u8, 0x55u8, 0x42u8],
    }
}

/// The command that a token spells, if it spells one. Keywords are
/// upper case and nothing else is accepted.
pub open spec fn command_of(token: Seq<u8>) -> Option<Command> {
    if token =~= keyword(Command::Make) {
        Some(Command::Make)
    } else if token =~= keyword(Command::Delete) {
        Some(Command::Delete)
    } else if token =~= keyword(Command::Publish) {
        Some(Command::Publish)
    } else if token =~= keyword(Command::Subscribe) {
        Some(Command::Subscribe)
    } else {
        None
    }
}

/// ASCII whitespace: space, tab, line feed, form feed, carriage return.
pub open spec fn is_blank(b: u8) -> bool {
    b == 0x20 || b == 0x09 || b == 0x0a || b == 0x0c || b == 0x0d
}

/// A line terminator starts at `i`.
pub open spec fn crlf_at(s: Seq<u8>, i: int) -> bool {
    0 <= i && i + 1 < s.len() && s[i] == CR && s[i + 1] == LF
}

/// A token ends at `i`: a space stands there, or a line terminator starts
/// there. The last byte of the input is never taken for the end of a
/// token, since what follows it is not known yet.
pub open spec fn delimiter_at(s: Seq<u8>, i: int) -> bool {
    0 <= i && i + 1 < s.len() && (s[i] == SPACE || (s[i] == CR && s[i + 1] == LF))
}

/// The first offset at or after `from` where a token ends, or `s.len()`
/// where none does.
pub open spec fn next_delimiter(s: Seq<u8>, from: int) -> int
    decreases s.len() - from,
{
    if from < 0 || from + 1 >= s.len() {
        s.len() as int
    } else if delimiter_at(s, from) {
        from
    } else {
        next_delimiter(s, from + 1)
    }
}

/// The first offset at or after `from` where a line terminator starts, or
/// `s.len()` where none does.
pub open spec fn next_crlf(s: Seq<u8>, from: int) -> int
    decreases s.len() - from,
{
    if from < 0 || from + 1 >= s.len() {
        s.len() as int
    } else if crlf_at(s, from) {
        from
    } else {
        next_crlf(s, from + 1)
    }
}

/// The offset just behind the delimiter that starts at `d`.
pub open spec fn after_delimiter(s: Seq<u8>, d: int) -> int {
    if s[d] == SPACE {
        d + 1
    } else {
        d + 2
    }
}

/// The bytes of a subject: at least one, valid UTF-8, no whitespace.
pub open spec fn valid_subject(token: Seq<u8>) -> bool {
    &&& token.len() > 0
    &&& valid_utf8(token)
    &&& forall|i: int| 0 <= i < token.len() ==> !is_blank(#[trigger] token[i])
}

/// A payload that the wire format can carry: one in which no line
/// terminator occurs.
pub open spec fn valid_payload(payload: Seq<u8>) -> bool {
    forall|i: int| !crlf_at(payload, i)
}

/// The command line that starts at `from`: a keyword, one space, a subject,
/// a line terminator.
pub open spec fn header(s: Seq<u8>, from: int) -> Header {
    let k = next_delimiter(s, from);
    if k >= s.len() {
        Header::Incomplete
    } else if command_of(s.subrange(from, k)) is None || s[k] != SPACE {
        Header::Malformed
    } else {
        let e = next_delimiter(s, k + 1);
        if e >= s.len() {
            Header::Incomplete
        } else if s[e] == SPACE || !valid_subject(s.subrange(k + 1, e)) {
            Header::Malformed
        } else {
            Header::Found {
                command: command_of(s.subrange(from, k)).unwrap(),
                subject: decode_utf8(s.subrange(k + 1, e)),
                next: e + 2,
            }
        }
    }
}

/// The frame that starts at `from`. The payload of a publish is whatever
/// stands between the command line and the next line terminator: it is cut
/// out by position and never read for keywords.
pub open spec fn framing(s: Seq<u8>, from: int) -> Framing {
    match header(s, from) {
        Header::Incomplete => Framing::Incomplete,
        Header::Malformed => Framing::Malformed,
        Header::Found { command, subject, next } => match command {
            Command::Make => Framing::Complete(Frame::Make(subject), next),
            Command::Delete => Framing::Complete(Frame::Delete(subject), next),
            Command::Subscribe => Framing::Complete(Frame::Subscribe(subject), next),
            Command::Publish => {
                let q = next_crlf(s, next);
                if q >= s.len() {
                    Framing::Incomplete
                } else {
                    Framing::Complete(Frame::Publish(subject, s.subrange(next, q)), q + 2)
                }
            },
        },
    }
}

impl Frame {
    /// The command of the frame.
    pub open spec fn command(self) -> Command {
        match self {
            Frame::Make(_) => Command::Make,
            Frame::Delete(_) => Command::Delete,
            Frame::Publish(_, _) => Command::Publish,
            Frame::Subscribe(_) => Command::Subscribe,
        }
    }

    /// The subject of the frame.
    pub open spec fn subject(self) -> Seq<char> {
        match self {
            Frame::Make(s) => s,
            Frame::Delete(s) => s,
            Frame::Publish(s, _) => s,
            Frame::Subscribe(s) => s,
        }
    }

    /// The bytes that follow the command line: the payload and its
    /// terminator for a publish, nothing otherwise.
    pub open spec fn trailer(self) -> Seq<u8> {
        match self {
            Frame::Publish(_, payload) => payload + seq![CR, LF],
            _ => Seq::<u8>::empty(),
        }
    }

    /// The bytes of the frame on the wire.
    pub open spec fn wire(self) -> Seq<u8> {
        keyword(self.command()) + seq![SPACE] + encode_utf8(self.subject()) + seq![CR, LF]
            + self.trailer()
    }

    /// A frame that the wire format can carry: its subject is a token, and
    /// its payload, if it has one, holds no line terminator.
    pub open spec fn well_formed(self) -> bool {
        &&& valid_subject(encode_utf8(self.subject()))
        &&& match self {
            Frame::Publish(_, payload) => valid_payload(payload),
            _ => true,
        }
    }
}

/// `next_delimiter` stays within the input, and where it finds a delimiter
/// it is the first one.
pub proof fn lemma_next_delimiter(s: Seq<u8>, from: int)
    requires
        0 <= from,
    ensures
        next_delimiter(s, from) <= s.len(),
        next_delimiter(s, from) < s.len() ==> from <= next_delimiter(s, from) && delimiter_at(
            s,
            next_delimiter(s, from),
        ),
        forall|j: int| from <= j < next_delimiter(s, from) ==> !delimiter_at(s, j),
        next_delimiter(s, from) >= s.len() ==> forall|j: int| from <= j ==> !delimiter_at(s, j),
    decreases s.len() - from,
{
    if from + 1 >= s.len() {
    } else if delimiter_at(s, from) {
    } else {
        lemma_next_delimiter(s, from + 1);
    }
}

/// `next_crlf` stays within the input, and where it finds a line terminator
/// it is the first one.
pub proof fn lemma_next_crlf(s: Seq<u8>, from: int)
    requires
        0 <= from,
    ensures
        next_crlf(s, from) <= s.len(),
        next_crlf(s, from) < s.len() ==> from <= next_crlf(s, from) && crlf_at(
            s,
            next_crlf(s, from),
        ),
        forall|j: int| from <= j < next_crlf(s, from) ==> !crlf_at(s, j),
        next_crlf(s, from) >= s.len() ==> forall|j: int| from <= j ==> !crlf_at(s, j),
    decreases s.len() - from,
{
    if from + 1 >= s.len() {
    } else if crlf_at(s, from) {
    } else {
        lemma_next_crlf(s, from + 1);
    }
}

/// The first delimiter is where one stands with none before it.
pub proof fn lemma_first_delimiter(s: Seq<u8>, from: int, d: int)
    requires
        0 <= from <= d,
        delimiter_at(s, d),
        forall|j: int| from <= j < d ==> !delimiter_at(s, j),
    ensures
        next_delimiter(s, from) == d,
    decreases d - from,
{
    if from < d {
        lemma_first_delimiter(s, from + 1, d);
    }
}

/// The first line terminator is where one stands with none before it.
pub proof fn lemma_first_crlf(s: Seq<u8>, from: int, d: int)
    requires
        0 <= from <= d,
        crlf_at(s, d),
        forall|j: int| from <= j < d ==> !crlf_at(s, j),
    ensures
        next_crlf(s, from) == d,
    decreases d - from,
{
    if from < d {
        lemma_first_crlf(s, from + 1, d);
    }
}

/// Where no delimiter stands from `from` on, none is found.
pub proof fn lemma_no_delimiter(s: Seq<u8>, from: int)
    requires
        0 <= from,
        forall|j: int| from <= j ==> !delimiter_at(s, j),
    ensures
        next_delimiter(s, from) == s.len(),
    decreases s.len() - from,
{
    if from + 1 < s.len() {
        lemma_no_delimiter(s, from + 1);
    }
}

/// Where no line terminator starts from `from` on, none is found.
pub proof fn lemma_no_crlf(s: Seq<u8>, from: int)
    requires
        0 <= from,
        forall|j: int| from <= j ==> !crlf_at(s, j),
    ensures
        next_crlf(s, from) == s.len(),
    decreases s.len() - from,
{
    if from + 1 < s.len() {
        lemma_no_crlf(s, from + 1);
    }
}

/// A delimiter that was found is still the first one when bytes are
/// appended.
pub proof fn lemma_next_delimiter_extend(s: Seq<u8>, more: Seq<u8>, from: int)
    requires
        0 <= from,
        next_delimiter(s, from) < s.len(),
    ensures
        next_delimiter(s + more, from) == next_delimiter(s, from),
{
    let d = next_delimiter(s, from);
    let t = s + more;
    lemma_next_delimiter(s, from);
    assert forall|j: int| from <= j < d implies !delimiter_at(t, j) by {
        assert(!delimiter_at(s, j));
        assert(t[j] == s[j]);
        assert(t[j + 1] == s[j + 1]);
    }
    assert(t[d] == s[d]);
    assert(t[d + 1] == s[d + 1]);
    lemma_first_delimiter(t, from, d);
}

/// A line terminator that was found is still the first one when bytes are
/// appended.
pub proof fn lemma_next_crlf_extend(s: Seq<u8>, more: Seq<u8>, from: int)
    requires
        0 <= from,
        next_crlf(s, from) < s.len(),
    ensures
        next_crlf(s + more, from) == next_crlf(s, from),
{
    let d = next_crlf(s, from);
    let t = s + more;
    lemma_next_crlf(s, from);
    assert forall|j: int| from <= j < d implies !crlf_at(t, j) by {
        assert(!crlf_at(s, j));
        assert(t[j] == s[j]);
        assert(t[j + 1] == s[j + 1]);
    }
    assert(t[d] == s[d]);
    assert(t[d + 1] == s[d + 1]);
    lemma_first_crlf(t, from, d);
}

/// A command line that was read, or refused, is read or refused in the
/// same way when bytes are appended.
pub proof fn lemma_header_stable(s: Seq<u8>, more: Seq<u8>, from: int)
    requires
        0 <= from,
        !(header(s, from) is Incomplete),
    ensures
        header(s + more, from) == header(s, from),
{
    let t = s + more;
    let k = next_delimiter(s, from);
    lemma_next_delimiter(s, from);
    lemma_next_delimiter_extend(s, more, from);
    assert(t.subrange(from, k) =~= s.subrange(from, k));
    assert(t[k] == s[k]);
    if !(command_of(s.subrange(from, k)) is None || s[k] != SPACE) {
        let e = next_delimiter(s, k + 1);
        lemma_next_delimiter(s, k + 1);
        lemma_next_delimiter_extend(s, more, k + 1);
        assert(t.subrange(k + 1, e) =~= s.subrange(k + 1, e));
        assert(t[e] == s[e]);
    }
}

/// A verdict other than "incomplete" is final: the frame found, and the
/// offset where it ends, do not depend on the bytes that come after it, and
/// neither does a refusal. So a payload that spells a keyword, or anything
/// else that arrives later, cannot change what was decided.
pub proof fn lemma_framing_stable(s: Seq<u8>, more: Seq<u8>, from: int)
    requires
        0 <= from,
        !(framing(s, from) is Incomplete),
    ensures
        framing(s + more, from) == framing(s, from),
{
    let t = s + more;
    lemma_header_stable(s, more, from);
    match header(s, from) {
        Header::Found { command, subject, next } => {
            if command == Command::Publish {
                let q = next_crlf(s, next);
                lemma_next_crlf(s, next);
                lemma_next_crlf_extend(s, more, next);
                assert(t.subrange(next, q) =~= s.subrange(next, q));
            }
        },
        _ => {},
    }
}

/// A complete frame lies inside the input and is not empty.
pub proof fn lemma_framing_bounds(s: Seq<u8>, from: int)
    requires
        0 <= from,
    ensures
        framing(s, from) matches Framing::Complete(_, end) ==> from < end <= s.len(),
{
    let k = next_delimiter(s, from);
    lemma_next_delimiter(s, from);
    if k < s.len() {
        let e = next_delimiter(s, k + 1);
        lemma_next_delimiter(s, k + 1);
        if e < s.len() {
            lemma_next_crlf(s, e + 2);
        }
    }
}

/// No byte of a keyword is a space or a carriage return.
pub proof fn lemma_keyword_plain(command: Command)
    ensures
        3 <= keyword(command).len() <= 4,
        forall|i: int|
            0 <= i < keyword(command).len() ==> (#[trigger] keyword(command)[i]) != SPACE
                && keyword(command)[i] != CR,
        command_of(keyword(command)) == Some(command),
{
    assert(keyword(Command::Make)[0] != keyword(Command::Delete)[0]);
    assert(keyword(Command::Publish)[0] != keyword(Command::Subscribe)[0]);
    assert(keyword(Command::Publish)[0] != keyword(Command::Delete)[0]);
    assert(keyword(Command::Subscribe)[0] != keyword(Command::Delete)[0]);
    assert(keyword(Command::Make).len() != keyword(Command::Publish).len());
}

/// A keyword is plain ASCII, hence valid UTF-8.
pub proof fn lemma_keyword_utf8(command: Command)
    ensures
        valid_utf8(keyword(command)),
{
    broadcast use vstd::utf8::encode_utf8_valid_utf8;

    let chars = match command {
        Command::Make => seq!['M', 'A', 'K', 'E'],
        Command::Delete => seq!['D', 'E', 'L'],
        Command::Publish => seq!['P', 'U', 'B'],
        Command::Subscribe => seq!['S', 'U', 'B'],
    };
    assert(vstd::utf8::is_ascii_chars(chars));
    vstd::utf8::is_ascii_chars_encode_utf8(chars);
    assert(encode_utf8(chars) =~= keyword(command));
}

/// Round trip. The bytes of a well-formed frame, followed by any bytes at
/// all, decode to that frame and to the offset where its bytes end. For a
/// publish this gives back the subject and the payload exactly, for every
/// payload in which no line terminator occurs.
pub proof fn lemma_round_trip(frame: Frame, rest: Seq<u8>)
    requires
        frame.well_formed(),
    ensures
        framing(frame.wire() + rest, 0) == Framing::Complete(frame, frame.wire().len() as int),
{
    broadcast use vstd::utf8::encode_utf8_decode_utf8;

    let command = frame.command();
    let kw = keyword(command);
    let subject = encode_utf8(frame.subject());
    let s = frame.wire() + rest;
    let k = kw.len() as int;
    let e = k + 1 + subject.len();
    lemma_keyword_plain(command);
    assert forall|j: int| 0 <= j < k implies !delimiter_at(s, j) by {
        assert(s[j] == kw[j]);
    }
    assert(s[k] == SPACE);
    assert(s[k + 1] == subject[0]);
    lemma_first_delimiter(s, 0, k);
    assert(s.subrange(0, k) =~= kw);
    assert forall|j: int| k + 1 <= j < e implies !delimiter_at(s, j) by {
        assert(s[j] == subject[j - k - 1]);
        assert(!is_blank(subject[j - k - 1]));
    }
    assert(s[e] == CR);
    assert(s[e + 1] == LF);
    lemma_first_delimiter(s, k + 1, e);
    assert(s.subrange(k + 1, e) =~= subject);
    assert(header(s, 0) == Header::Found { command, subject: frame.subject(), next: e + 2 });
    match frame {
        Frame::Publish(_, payload) => {
            let q = e + 2 + payload.len();
            assert(s[q] == CR);
            assert(s[q + 1] == LF);
            assert forall|j: int| e + 2 <= j < q implies !crlf_at(s, j) by {
                assert(!crlf_at(payload, j - e - 2));
                assert(s[j] == payload[j - e - 2]);
                if j + 1 < q {
                    assert(s[j + 1] == payload[j + 1 - e - 2]);
                }
            }
            lemma_first_crlf(s, e + 2, q);
            assert(s.subrange(e + 2, q) =~= payload);
        },
        _ => {},
    }
}

/// What is read is what was written: a frame that is found is well-formed,
/// and the bytes from where it starts to where it ends are its bytes on the
/// wire, byte for byte. Together with the round trip this makes reading
/// and writing inverse to each other.
pub proof fn lemma_framing_exact(s: Seq<u8>, from: int)
    requires
        0 <= from,
    ensures
        framing(s, from) matches Framing::Complete(frame, end) ==> frame.well_formed()
            && frame.wire() == s.subrange(from, end),
{
    broadcast use vstd::utf8::decode_utf8_encode_utf8;

    match framing(s, from) {
        Framing::Complete(frame, end) => {
            let k = next_delimiter(s, from);
            lemma_next_delimiter(s, from);
            let e = next_delimiter(s, k + 1);
            lemma_next_delimiter(s, k + 1);
            let token = s.subrange(k + 1, e);
            assert(encode_utf8(frame.subject()) == token);
            assert(s.subrange(from, k) =~= keyword(frame.command()));
            assert(s[e] == CR && s[e + 1] == LF);
            match frame {
                Frame::Publish(_, payload) => {
                    let q = next_crlf(s, e + 2);
                    lemma_next_crlf(s, e + 2);
                    assert forall|i: int| !crlf_at(payload, i) by {
                        if crlf_at(payload, i) {
                            assert(s[e + 2 + i] == payload[i]);
                            assert(s[e + 2 + i + 1] == payload[i + 1]);
                            assert(crlf_at(s, e + 2 + i));
                        }
                    }
                    assert(frame.wire() =~= s.subrange(from, end));
                },
                _ => {
                    assert(frame.wire() =~= s.subrange(from, end));
                },
            }
        },
        _ => {},
    }
}

/// The frames that stand one behind the other at the start of `s`, up to
/// the first place where no frame is found.
pub open spec fn frames_in(s: Seq<u8>) -> Seq<Frame>
    decreases s.len(),
{
    match framing(s, 0) {
        Framing::Complete(frame, end) => if 0 < end <= s.len() {
            seq![frame] + frames_in(s.skip(end))
        } else {
            Seq::<Frame>::empty()
        },
        _ => Seq::<Frame>::empty(),
    }
}

/// The bytes of several frames on the wire, one behind the other.
pub open spec fn wire_of(frames: Seq<Frame>) -> Seq<u8>
    decreases frames.len(),
{
    if frames.len() == 0 {
        Seq::<u8>::empty()
    } else {
        frames[0].wire() + wire_of(frames.drop_first())
    }
}

/// A stream is read frame by frame: the bytes of well-formed frames, one
/// behind the other and followed by anything at all, are read as those
/// frames in their order, and then as whatever the rest is read as.
pub proof fn lemma_frames_in_stream(frames: Seq<Frame>, rest: Seq<u8>)
    requires
        forall|i: int| 0 <= i < frames.len() ==> (#[trigger] frames[i]).well_formed(),
    ensures
        frames_in(wire_of(frames) + rest) == frames + frames_in(rest),
    decreases frames.len(),
{
    if frames.len() == 0 {
        assert(wire_of(frames) + rest =~= rest);
        assert(frames + frames_in(rest) =~= frames_in(rest));
    } else {
        let first = frames[0];
        let others = frames.drop_first();
        let s = wire_of(frames) + rest;
        assert(s =~= first.wire() + (wire_of(others) + rest));
        lemma_round_trip(first, wire_of(others) + rest);
        assert(s.skip(first.wire().len() as int) =~= wire_of(others) + rest);
        assert forall|i: int| 0 <= i < others.len() implies (#[trigger] others[i]).well_formed() by {
            assert(others[i] == frames[i + 1]);
        }
        lemma_frames_in_stream(others, rest);
        assert(first.wire().len() > 0) by {
            lemma_keyword_plain(first.command());
        }
        assert(seq![first] + (others + frames_in(rest)) =~= frames + frames_in(rest));
    }
}

/// A frame is not read before it is whole: of the bytes of a well-formed
/// frame, every beginning that stops short of the last byte is
/// "incomplete", never a frame and never refused.
pub proof fn lemma_prefix_incomplete(frame: Frame, n: int)
    requires
        frame.well_formed(),
        0 <= n < frame.wire().len(),
    ensures
        framing(frame.wire().subrange(0, n), 0) is Incomplete,
{
    let command = frame.command();
    let kw = keyword(command);
    let subject = encode_utf8(frame.subject());
    let w = frame.wire();
    let p = w.subrange(0, n);
    let k = kw.len() as int;
    let e = k + 1 + subject.len();
    lemma_keyword_plain(command);
    assert forall|j: int| 0 <= j < k && j + 1 < n implies !delimiter_at(p, j) by {
        assert(p[j] == kw[j]);
    }
    if n <= k + 1 {
        assert forall|j: int| 0 <= j implies !delimiter_at(p, j) by {
            if j + 1 < n {
                assert(p[j] == kw[j]);
            }
        }
        lemma_no_delimiter(p, 0);
    } else {
        assert(p[k] == SPACE);
        lemma_first_delimiter(p, 0, k);
        assert(p.subrange(0, k) =~= kw);
        if n <= e + 1 {
            assert forall|j: int| k + 1 <= j implies !delimiter_at(p, j) by {
                if j + 1 < n {
                    assert(p[j] == subject[j - k - 1]);
                    assert(!is_blank(subject[j - k - 1]));
                }
            }
            lemma_no_delimiter(p, k + 1);
        } else {
            assert forall|j: int| k + 1 <= j < e implies !delimiter_at(p, j) by {
                assert(p[j] == subject[j - k - 1]);
                assert(!is_blank(subject[j - k - 1]));
            }
            assert(p[e] == CR);
            assert(p[e + 1] == LF);
            lemma_first_delimiter(p, k + 1, e);
            assert(p.subrange(k + 1, e) =~= subject);
            match frame {
                Frame::Publish(_, payload) => {
                    let q = e + 2 + payload.len();
                    assert forall|j: int| e + 2 <= j implies !crlf_at(p, j) by {
                        if j + 1 < n {
                            assert(p[j] == w[j]);
                            assert(p[j + 1] == w[j + 1]);
                            if j + 1 < q {
                                assert(!crlf_at(payload, j - e - 2));
                                assert(w[j] == payload[j - e - 2]);
                                assert(w[j + 1] == payload[j + 1 - e - 2]);
                            } else {
                                assert(w[j + 1] == CR);
                            }
                        }
                    }
                    lemma_no_crlf(p, e + 2);
                },
                _ => {
                    assert(w.len() == e + 2);
                },
            }
        }
    }
}

} // verus!
