//! Wire messages between device and backend, and their length-prefixed
//! binary encoding.
//!
//! Every message is framed as a big-endian 2-byte length field followed by
//! a tag-discriminated payload of exactly that many bytes. The maximum
//! payload size of each message type is a compile-time constant, and both
//! encode and decode buffers are sized to it.
use vstd::prelude::*;

use crate::consts::{IMAGE_BUFFER_SIZE, TEXT_BUFFER_SIZE};
use crate::types::{DeviceID, MessageID, TextLength};

verus! {

/// Protocol-level errors. `Length` reports a declared payload length above
/// the type's maximum; `DecodeFailure` any other malformed payload;
/// `EncodeOverflow` an encode buffer smaller than the type's maximum
/// encoded size; `Socket` a failed transport operation (raised by the
/// unverified transport layer, carried through the session logic).
#[derive(Debug, Clone, Copy, PartialEq, Eq, Structural)]
pub enum Error {
    Length { val: usize, max: usize },
    EncodeOverflow,
    DecodeFailure,
    Socket,
}

/// What kind of content a pending update carries: a raw image that always
/// fills the fixed image buffer, or a text of the given byte length.
#[derive(Debug, Clone, Copy, PartialEq, Eq, Structural)]
pub enum UpdateKind {
    Image,
    Text(TextLength),
}

/// Describes one pending item without its payload.
#[derive(Debug, Clone, Copy, PartialEq, Eq, Structural)]
pub struct Update {
    pub lifetime_sec: u32,
    pub id: MessageID,
    pub kind: UpdateKind,
}

/// The backend's reply to a poll: nothing pending, or the metadata of the
/// next pending item (whose payload bytes follow on the stream).
#[derive(Debug, Clone, Copy, PartialEq, Eq, Structural)]
pub enum RequestUpdateResult {
    NoUpdate,
    Update(Update),
}

/// A command the device sends: poll for the next update after the given
/// cursor (the highest message id the device has already consumed).
#[derive(Debug, Clone, Copy, PartialEq, Eq, Structural)]
pub enum ClientCommand {
    RequestUpdate(DeviceID, Option<MessageID>),
}

impl UpdateKind {
    /// A text length is only trusted after it has been checked against the
    /// text buffer capacity; an image always fits its fixed buffer.
    pub open spec fn spec_valid(self) -> bool {
        match self {
            UpdateKind::Image => true,
            UpdateKind::Text(len) => len as usize <= TEXT_BUFFER_SIZE,
        }
    }

    /// Number of payload bytes that follow an update of this kind.
    pub open spec fn spec_size(self) -> usize {
        match self {
            UpdateKind::Image => IMAGE_BUFFER_SIZE,
            UpdateKind::Text(len) => len as usize,
        }
    }

    pub fn is_valid(&self) -> (r: bool)
        ensures
            r == self.spec_valid(),
    {
        match *self {
            UpdateKind::Image => true,
            UpdateKind::Text(len) => len as usize <= TEXT_BUFFER_SIZE,
        }
    }

    pub fn size(&self) -> (r: usize)
        ensures
            r == self.spec_size(),
    {
        match *self {
            UpdateKind::Image => IMAGE_BUFFER_SIZE,
            UpdateKind::Text(len) => len as usize,
        }
    }
}

/// Size of the length field that precedes every payload.
pub const LENGTH_PREFIX_SIZE: usize = 2;

/// Maximum payload size of an encoded `ClientCommand`:
/// tag, device id, option tag, message id.
pub const CLIENT_COMMAND_MAX_PAYLOAD: usize = 10;

/// Maximum payload size of an encoded `RequestUpdateResult`:
/// tag, lifetime, id, kind tag, text length.
pub const REQUEST_UPDATE_RESULT_MAX_PAYLOAD: usize = 11;

/// Exact size of a `ClientCommand` encode/decode buffer.
pub const CLIENT_COMMAND_BUFFER_SIZE: usize = 12;

/// Exact size of a `RequestUpdateResult` encode/decode buffer.
pub const REQUEST_UPDATE_RESULT_BUFFER_SIZE: usize = 13;

/// The four big-endian bytes of a 32-bit integer.
pub open spec fn spec_be32(x: u32) -> Seq<u8> {
    seq![
        (x / 0x1000000) as u8,
        ((x % 0x1000000) / 0x10000) as u8,
        ((x % 0x10000) / 0x100) as u8,
        (x % 0x100) as u8,
    ]
}

/// The 32-bit integer read back from four big-endian bytes.
pub open spec fn spec_de32(b0: u8, b1: u8, b2: u8, b3: u8) -> u32 {
    (b0 * 0x1000000 + b1 * 0x10000 + b2 * 0x100 + b3) as u32
}

/// The two big-endian bytes of a length field.
pub open spec fn spec_be16(x: usize) -> Seq<u8>
    recommends
        x < 0x10000,
{
    seq![((x as int / 0x100) % 0x100) as u8, (x % 0x100) as u8]
}

/// Reading four big-endian bytes undoes writing them.
pub proof fn lemma_be32_round_trip(x: u32)
    ensures
        spec_de32(
            spec_be32(x)[0],
            spec_be32(x)[1],
            spec_be32(x)[2],
            spec_be32(x)[3],
        ) == x,
{
    assert((x / 0x1000000) as u8 * 0x1000000 + (x % 0x1000000 / 0x10000) as u8 * 0x10000 + (x
        % 0x10000 / 0x100) as u8 * 0x100 + (x % 0x100) as u8 == x) by (bit_vector);
}

/// Writes the four big-endian bytes of `x` onto the end of `out`.
fn push_be32(out: &mut Vec<u8>, x: u32)
    ensures
        final(out)@ == old(out)@ + spec_be32(x),
{
    out.push((x / 0x1000000) as u8);
    out.push((x % 0x1000000 / 0x10000) as u8);
    out.push((x % 0x10000 / 0x100) as u8);
    out.push((x % 0x100) as u8);
    assert(out@ =~= old(out)@ + spec_be32(x));
}

/// Reads a 32-bit integer from four big-endian bytes.
fn read_be32(b0: u8, b1: u8, b2: u8, b3: u8) -> (r: u32)
    ensures
        r == spec_de32(b0, b1, b2, b3),
{
    (b0 as u32) * 0x1000000 + (b1 as u32) * 0x10000 + (b2 as u32) * 0x100 + (b3 as u32)
}

impl UpdateKind {
    /// Tag-discriminated payload bytes of this kind.
    pub open spec fn spec_payload(self) -> Seq<u8> {
        match self {
            UpdateKind::Image => seq![0u8],
            UpdateKind::Text(len) => seq![1u8, len],
        }
    }
}

impl Update {
    /// Payload bytes: lifetime, id, then the kind.
    pub open spec fn spec_payload(self) -> Seq<u8> {
        spec_be32(self.lifetime_sec) + spec_be32(self.id.0) + self.kind.spec_payload()
    }
}

/// The declared payload length read from a frame's first two bytes.
pub open spec fn spec_declared_len(b: Seq<u8>) -> int {
    b[0] * 0x100 + b[1]
}

impl RequestUpdateResult {
    /// Tag-discriminated payload bytes of this reply.
    pub open spec fn spec_payload(self) -> Seq<u8> {
        match self {
            RequestUpdateResult::NoUpdate => seq![0u8],
            RequestUpdateResult::Update(u) => seq![1u8] + u.spec_payload(),
        }
    }

    /// The full encoded frame: length prefix, then the payload.
    pub open spec fn spec_encoding(self) -> Seq<u8> {
        spec_be16(self.spec_payload().len() as usize) + self.spec_payload()
    }

    /// Meaning of a payload of exactly the declared length.
    pub open spec fn spec_parse(p: Seq<u8>) -> Result<RequestUpdateResult, Error> {
        if p.len() == 1 && p[0] == 0 {
            Ok(RequestUpdateResult::NoUpdate)
        } else if p.len() >= 10 && p[0] == 1 {
            let u = Update {
                lifetime_sec: spec_de32(p[1], p[2], p[3], p[4]),
                id: MessageID(spec_de32(p[5], p[6], p[7], p[8])),
                kind: if p[9] == 0 {
                    UpdateKind::Image
                } else {
                    UpdateKind::Text(p[10])
                },
            };
            if p[9] == 0 && p.len() == 10 {
                Ok(RequestUpdateResult::Update(u))
            } else if p[9] == 1 && p.len() == 11 {
                Ok(RequestUpdateResult::Update(u))
            } else {
                Err(Error::DecodeFailure)
            }
        } else {
            Err(Error::DecodeFailure)
        }
    }

    /// Meaning of a whole frame. A declared length above the type's
    /// maximum is rejected before anything else; only the declared number
    /// of payload bytes is ever read, whatever else the buffer holds.
    pub open spec fn spec_decode(b: Seq<u8>) -> Result<RequestUpdateResult, Error> {
        if b.len() < LENGTH_PREFIX_SIZE {
            Err(Error::DecodeFailure)
        } else {
            let l = spec_declared_len(b);
            if l > REQUEST_UPDATE_RESULT_MAX_PAYLOAD {
                Err(Error::Length { val: l as usize, max: REQUEST_UPDATE_RESULT_MAX_PAYLOAD })
            } else if b.len() < LENGTH_PREFIX_SIZE + l {
                Err(Error::DecodeFailure)
            } else {
                Self::spec_parse(b.subrange(LENGTH_PREFIX_SIZE as int, LENGTH_PREFIX_SIZE + l))
            }
        }
    }

    /// Encodes this reply as a fresh frame.
    pub fn encode(&self) -> (r: Vec<u8>)
        ensures
            r@ == self.spec_encoding(),
            r@.len() <= REQUEST_UPDATE_RESULT_BUFFER_SIZE,
    {
        let mut payload: Vec<u8> = Vec::new();
        match *self {
            RequestUpdateResult::NoUpdate => {
                payload.push(0u8);
            },
            RequestUpdateResult::Update(u) => {
                payload.push(1u8);
                push_be32(&mut payload, u.lifetime_sec);
                push_be32(&mut payload, u.id.0);
                match u.kind {
                    UpdateKind::Image => {
                        payload.push(0u8);
                    },
                    UpdateKind::Text(len) => {
                        payload.push(1u8);
                        payload.push(len);
                    },
                }
            },
        }
        assert(payload@ =~= self.spec_payload());
        let n = payload.len();
        let mut out: Vec<u8> = Vec::new();
        out.push((n / 0x100 % 0x100) as u8);
        out.push((n % 0x100) as u8);
        out.append(&mut payload);
        assert(out@ =~= self.spec_encoding());
        out
    }

    /// Encodes this reply into the start of a caller-supplied buffer of at
    /// least the type's maximum encoded size, returning the frame length;
    /// a smaller buffer is refused and left unchanged.
    pub fn to_bytes(&self, buf: &mut Vec<u8>) -> (r: Result<usize, Error>)
        ensures
            match r {
                Ok(n) => {
                    &&& old(buf)@.len() >= REQUEST_UPDATE_RESULT_BUFFER_SIZE
                    &&& n == self.spec_encoding().len()
                    &&& final(buf)@.len() == old(buf)@.len()
                    &&& final(buf)@.subrange(0, n as int) == self.spec_encoding()
                    &&& final(buf)@.subrange(n as int, final(buf)@.len() as int)
                        == old(buf)@.subrange(n as int, old(buf)@.len() as int)
                },
                Err(e) => {
                    &&& e == Error::EncodeOverflow
                    &&& old(buf)@.len() < REQUEST_UPDATE_RESULT_BUFFER_SIZE
                    &&& final(buf)@ == old(buf)@
                },
            },
    {
        if buf.len() < REQUEST_UPDATE_RESULT_BUFFER_SIZE {
            return Err(Error::EncodeOverflow);
        }
        let enc = self.encode();
        let n = enc.len();
        copy_prefix(buf, &enc);
        Ok(n)
    }

    /// Decodes a payload of exactly the declared length.
    pub fn from_bytes(p: &[u8]) -> (r: Result<Self, Error>)
        ensures
            r == Self::spec_parse(p@),
    {
        if p.len() == 1 && p[0] == 0 {
            Ok(RequestUpdateResult::NoUpdate)
        } else if p.len() >= 10 && p[0] == 1 {
            let lifetime_sec = read_be32(p[1], p[2], p[3], p[4]);
            let id = MessageID(read_be32(p[5], p[6], p[7], p[8]));
            if p[9] == 0 && p.len() == 10 {
                Ok(RequestUpdateResult::Update(Update { lifetime_sec, id, kind: UpdateKind::Image }))
            } else if p[9] == 1 && p.len() == 11 {
                Ok(RequestUpdateResult::Update(Update {
                    lifetime_sec,
                    id,
                    kind: UpdateKind::Text(p[10]),
                }))
            } else {
                Err(Error::DecodeFailure)
            }
        } else {
            Err(Error::DecodeFailure)
        }
    }

    /// Reads the length field alone: how many payload bytes follow a
    /// reply frame that opens with these two bytes, or the bounds error
    /// — decided before any payload byte is read.
    pub fn check_frame_length(b0: u8, b1: u8) -> (r: Result<usize, Error>)
        ensures
            match r {
                Ok(n) => n == spec_declared_len(seq![b0, b1]) && n
                    <= REQUEST_UPDATE_RESULT_MAX_PAYLOAD,
                Err(e) => {
                    &&& spec_declared_len(seq![b0, b1]) > REQUEST_UPDATE_RESULT_MAX_PAYLOAD
                    &&& e == (Error::Length {
                        val: spec_declared_len(seq![b0, b1]) as usize,
                        max: REQUEST_UPDATE_RESULT_MAX_PAYLOAD,
                    })
                },
            },
    {
        let l: usize = (b0 as usize) * 0x100 + (b1 as usize);
        if l > REQUEST_UPDATE_RESULT_MAX_PAYLOAD {
            Err(Error::Length { val: l, max: REQUEST_UPDATE_RESULT_MAX_PAYLOAD })
        } else {
            Ok(l)
        }
    }

    /// Decodes a whole frame: length field first, bounds check second,
    /// then exactly the declared number of payload bytes.
    pub fn decode(buf: &[u8]) -> (r: Result<Self, Error>)
        ensures
            r == Self::spec_decode(buf@),
    {
        if buf.len() < LENGTH_PREFIX_SIZE {
            return Err(Error::DecodeFailure);
        }
        let l: usize = match Self::check_frame_length(buf[0], buf[1]) {
            Ok(l) => l,
            Err(e) => {
                proof {
                    assert(seq![buf@[0], buf@[1]] =~= buf@.subrange(0, 2));
                    assert(spec_declared_len(seq![buf@[0], buf@[1]]) == spec_declared_len(buf@));
                }
                return Err(e);
            },
        };
        proof {
            assert(spec_declared_len(seq![buf@[0], buf@[1]]) == spec_declared_len(buf@));
        }
        if buf.len() < LENGTH_PREFIX_SIZE + l {
            return Err(Error::DecodeFailure);
        }
        let p = &buf[LENGTH_PREFIX_SIZE..LENGTH_PREFIX_SIZE + l];
        Self::from_bytes(p)
    }

    /// Round-trip law: decoding an encoded reply gives the reply back,
    /// for every representable reply.
    pub proof fn lemma_round_trip(v: RequestUpdateResult)
        ensures
            Self::spec_decode(v.spec_encoding()) == Ok::<RequestUpdateResult, Error>(v),
    {
        let p = v.spec_payload();
        let b = v.spec_encoding();
        assert(p.len() == 1 || p.len() == 10 || p.len() == 11);
        assert(spec_declared_len(b) == p.len());
        assert(b.subrange(LENGTH_PREFIX_SIZE as int, LENGTH_PREFIX_SIZE + p.len()) =~= p);
        match v {
            RequestUpdateResult::NoUpdate => {},
            RequestUpdateResult::Update(u) => {
                lemma_be32_round_trip(u.lifetime_sec);
                lemma_be32_round_trip(u.id.0);
                assert(Self::spec_parse(p) == Ok::<RequestUpdateResult, Error>(v));
            },
        }
    }

    /// Bounds rejection: every buffer whose declared payload length
    /// exceeds the type's maximum decodes to exactly the length error,
    /// whatever else it holds.
    pub proof fn lemma_bounds_rejection(b: Seq<u8>)
        requires
            b.len() >= LENGTH_PREFIX_SIZE,
            spec_declared_len(b) > REQUEST_UPDATE_RESULT_MAX_PAYLOAD,
        ensures
            Self::spec_decode(b) == Err::<RequestUpdateResult, Error>(
                Error::Length {
                    val: spec_declared_len(b) as usize,
                    max: REQUEST_UPDATE_RESULT_MAX_PAYLOAD,
                },
            ),
    {
    }

    /// A decoded reply never reads past the declared length: two buffers
    /// that agree on the length field and the declared payload decode to
    /// the same result.
    pub proof fn lemma_reads_only_declared(b1: Seq<u8>, b2: Seq<u8>)
        requires
            b1.len() >= LENGTH_PREFIX_SIZE,
            b2.len() >= LENGTH_PREFIX_SIZE,
            spec_declared_len(b1) == spec_declared_len(b2),
            b1.len() >= LENGTH_PREFIX_SIZE + spec_declared_len(b1),
            b2.len() >= LENGTH_PREFIX_SIZE + spec_declared_len(b2),
            b1.subrange(0, LENGTH_PREFIX_SIZE + spec_declared_len(b1))
                == b2.subrange(0, LENGTH_PREFIX_SIZE + spec_declared_len(b2)),
        ensures
            Self::spec_decode(b1) == Self::spec_decode(b2),
    {
        let l = spec_declared_len(b1);
        let pre1 = b1.subrange(0, LENGTH_PREFIX_SIZE + l);
        let pre2 = b2.subrange(0, LENGTH_PREFIX_SIZE + l);
        assert forall|j: int| LENGTH_PREFIX_SIZE <= j < LENGTH_PREFIX_SIZE + l implies #[trigger] b1[j] == b2[j] by {
            assert(pre1[j] == pre2[j]);
        }
        if l <= REQUEST_UPDATE_RESULT_MAX_PAYLOAD {
            assert(b1.subrange(LENGTH_PREFIX_SIZE as int, LENGTH_PREFIX_SIZE + l)
                =~= b2.subrange(LENGTH_PREFIX_SIZE as int, LENGTH_PREFIX_SIZE + l));
        }
    }
}

/// Copies `src` onto the start of `dst`, which must be at least as long.
fn copy_prefix(dst: &mut Vec<u8>, src: &Vec<u8>)
    requires
        old(dst)@.len() >= src@.len(),
    ensures
        final(dst)@.len() == old(dst)@.len(),
        final(dst)@.subrange(0, src@.len() as int) == src@,
        final(dst)@.subrange(src@.len() as int, final(dst)@.len() as int)
            == old(dst)@.subrange(src@.len() as int, old(dst)@.len() as int),
{
    let mut i: usize = 0;
    while i < src.len()
        invariant
            i <= src@.len(),
            dst@.len() == old(dst)@.len(),
            src@.len() <= dst@.len(),
            forall|j: int| 0 <= j < i ==> dst@[j] == src@[j],
            forall|j: int| i <= j < dst@.len() ==> dst@[j] == old(dst)@[j],
        decreases src@.len() - i,
    {
        dst.set(i, src[i]);
        i += 1;
    }
    assert(dst@.subrange(0, src@.len() as int) =~= src@);
    assert(dst@.subrange(src@.len() as int, dst@.len() as int)
        =~= old(dst)@.subrange(src@.len() as int, old(dst)@.len() as int));
}

impl ClientCommand {
    /// Tag-discriminated payload bytes of this command.
    pub open spec fn spec_payload(self) -> Seq<u8> {
        match self {
            ClientCommand::RequestUpdate(dev, after) => seq![0u8] + spec_be32(dev.0) + match after {
                None => seq![0u8],
                Some(id) => seq![1u8] + spec_be32(id.0),
            },
        }
    }

    /// The full encoded frame: length prefix, then the payload.
    pub open spec fn spec_encoding(self) -> Seq<u8> {
        spec_be16(self.spec_payload().len() as usize) + self.spec_payload()
    }

    /// Meaning of a payload of exactly the declared length.
    pub open spec fn spec_parse(p: Seq<u8>) -> Result<ClientCommand, Error> {
        if p.len() >= 6 && p[0] == 0 {
            let dev = DeviceID(spec_de32(p[1], p[2], p[3], p[4]));
            if p[5] == 0 && p.len() == 6 {
                Ok(ClientCommand::RequestUpdate(dev, None))
            } else if p[5] == 1 && p.len() == 10 {
                Ok(ClientCommand::RequestUpdate(
                    dev,
                    Some(MessageID(spec_de32(p[6], p[7], p[8], p[9]))),
                ))
            } else {
                Err(Error::DecodeFailure)
            }
        } else {
            Err(Error::DecodeFailure)
        }
    }

    /// Meaning of a whole frame, as for `RequestUpdateResult`.
    pub open spec fn spec_decode(b: Seq<u8>) -> Result<ClientCommand, Error> {
        if b.len() < LENGTH_PREFIX_SIZE {
            Err(Error::DecodeFailure)
        } else {
            let l = spec_declared_len(b);
            if l > CLIENT_COMMAND_MAX_PAYLOAD {
                Err(Error::Length { val: l as usize, max: CLIENT_COMMAND_MAX_PAYLOAD })
            } else if b.len() < LENGTH_PREFIX_SIZE + l {
                Err(Error::DecodeFailure)
            } else {
                Self::spec_parse(b.subrange(LENGTH_PREFIX_SIZE as int, LENGTH_PREFIX_SIZE + l))
            }
        }
    }

    /// Encodes this command as a fresh frame.
    pub fn encode(&self) -> (r: Vec<u8>)
        ensures
            r@ == self.spec_encoding(),
            r@.len() <= CLIENT_COMMAND_BUFFER_SIZE,
    {
        let mut payload: Vec<u8> = Vec::new();
        match *self {
            ClientCommand::RequestUpdate(dev, after) => {
                payload.push(0u8);
                push_be32(&mut payload, dev.0);
                match after {
                    None => {
                        payload.push(0u8);
                    },
                    Some(id) => {
                        payload.push(1u8);
                        push_be32(&mut payload, id.0);
                    },
                }
            },
        }
        assert(payload@ =~= self.spec_payload());
        let n = payload.len();
        let mut out: Vec<u8> = Vec::new();
        out.push((n / 0x100 % 0x100) as u8);
        out.push((n % 0x100) as u8);
        out.append(&mut payload);
        assert(out@ =~= self.spec_encoding());
        out
    }

    /// Encodes this command into the start of a caller-supplied buffer of
    /// at least the type's maximum encoded size, returning the frame
    /// length; a smaller buffer is refused and left unchanged.
    pub fn to_bytes(&self, buf: &mut Vec<u8>) -> (r: Result<usize, Error>)
        ensures
            match r {
                Ok(n) => {
                    &&& old(buf)@.len() >= CLIENT_COMMAND_BUFFER_SIZE
                    &&& n == self.spec_encoding().len()
                    &&& final(buf)@.len() == old(buf)@.len()
                    &&& final(buf)@.subrange(0, n as int) == self.spec_encoding()
                    &&& final(buf)@.subrange(n as int, final(buf)@.len() as int)
                        == old(buf)@.subrange(n as int, old(buf)@.len() as int)
                },
                Err(e) => {
                    &&& e == Error::EncodeOverflow
                    &&& old(buf)@.len() < CLIENT_COMMAND_BUFFER_SIZE
                    &&& final(buf)@ == old(buf)@
                },
            },
    {
        if buf.len() < CLIENT_COMMAND_BUFFER_SIZE {
            return Err(Error::EncodeOverflow);
        }
        let enc = self.encode();
        let n = enc.len();
        copy_prefix(buf, &enc);
        Ok(n)
    }

    /// Decodes a payload of exactly the declared length.
    pub fn from_bytes(p: &[u8]) -> (r: Result<Self, Error>)
        ensures
            r == Self::spec_parse(p@),
    {
        if p.len() >= 6 && p[0] == 0 {
            let dev = DeviceID(read_be32(p[1], p[2], p[3], p[4]));
            if p[5] == 0 && p.len() == 6 {
                Ok(ClientCommand::RequestUpdate(dev, None))
            } else if p[5] == 1 && p.len() == 10 {
                Ok(ClientCommand::RequestUpdate(dev, Some(MessageID(read_be32(p[6], p[7], p[8], p[9])))))
            } else {
                Err(Error::DecodeFailure)
            }
        } else {
            Err(Error::DecodeFailure)
        }
    }

    /// Reads the length field alone: how many payload bytes follow a
    /// command frame that opens with these two bytes, or the bounds
    /// error — decided before any payload byte is read.
    pub fn check_frame_length(b0: u8, b1: u8) -> (r: Result<usize, Error>)
        ensures
            match r {
                Ok(n) => n == spec_declared_len(seq![b0, b1]) && n <= CLIENT_COMMAND_MAX_PAYLOAD,
                Err(e) => {
                    &&& spec_declared_len(seq![b0, b1]) > CLIENT_COMMAND_MAX_PAYLOAD
                    &&& e == (Error::Length {
                        val: spec_declared_len(seq![b0, b1]) as usize,
                        max: CLIENT_COMMAND_MAX_PAYLOAD,
                    })
                },
            },
    {
        let l: usize = (b0 as usize) * 0x100 + (b1 as usize);
        if l > CLIENT_COMMAND_MAX_PAYLOAD {
            Err(Error::Length { val: l, max: CLIENT_COMMAND_MAX_PAYLOAD })
        } else {
            Ok(l)
        }
    }

    /// Decodes a whole frame: length field first, bounds check second,
    /// then exactly the declared number of payload bytes.
    pub fn decode(buf: &[u8]) -> (r: Result<Self, Error>)
        ensures
            r == Self::spec_decode(buf@),
    {
        if buf.len() < LENGTH_PREFIX_SIZE {
            return Err(Error::DecodeFailure);
        }
        let l: usize = match Self::check_frame_length(buf[0], buf[1]) {
            Ok(l) => l,
            Err(e) => {
                proof {
                    assert(spec_declared_len(seq![buf@[0], buf@[1]]) == spec_declared_len(buf@));
                }
                return Err(e);
            },
        };
        proof {
            assert(spec_declared_len(seq![buf@[0], buf@[1]]) == spec_declared_len(buf@));
        }
        if buf.len() < LENGTH_PREFIX_SIZE + l {
            return Err(Error::DecodeFailure);
        }
        let p = &buf[LENGTH_PREFIX_SIZE..LENGTH_PREFIX_SIZE + l];
        Self::from_bytes(p)
    }

    /// Bounds rejection: every buffer whose declared payload length
    /// exceeds the type's maximum decodes to exactly the length error,
    /// whatever else it holds.
    pub proof fn lemma_bounds_rejection(b: Seq<u8>)
        requires
            b.len() >= LENGTH_PREFIX_SIZE,
            spec_declared_len(b) > CLIENT_COMMAND_MAX_PAYLOAD,
        ensures
            Self::spec_decode(b) == Err::<ClientCommand, Error>(
                Error::Length {
                    val: spec_declared_len(b) as usize,
                    max: CLIENT_COMMAND_MAX_PAYLOAD,
                },
            ),
    {
    }

    /// Round-trip law: decoding an encoded command gives the command
    /// back, for every representable command.
    pub proof fn lemma_round_trip(v: ClientCommand)
        ensures
            Self::spec_decode(v.spec_encoding()) == Ok::<ClientCommand, Error>(v),
    {
        let p = v.spec_payload();
        let b = v.spec_encoding();
        assert(p.len() == 6 || p.len() == 10);
        assert(spec_declared_len(b) == p.len());
        assert(b.subrange(LENGTH_PREFIX_SIZE as int, LENGTH_PREFIX_SIZE + p.len()) =~= p);
        match v {
            ClientCommand::RequestUpdate(dev, after) => {
                lemma_be32_round_trip(dev.0);
                match after {
                    None => {},
                    Some(id) => {
                        lemma_be32_round_trip(id.0);
                    },
                }
                assert(Self::spec_parse(p) == Ok::<ClientCommand, Error>(v));
            },
        }
    }
}

impl RequestUpdateResult {
    /// A reply is valid when any text length it announces fits the text
    /// buffer capacity.
    pub open spec fn spec_valid(self) -> bool {
        match self {
            RequestUpdateResult::NoUpdate => true,
            RequestUpdateResult::Update(u) => u.kind.spec_valid(),
        }
    }

    /// A decoded reply is only used after this check: a `Text` length above
    /// the text buffer capacity must never be trusted to size a read.
    pub fn check_valid(&self) -> (r: Result<(), Error>)
        ensures
            match r {
                Ok(()) => match *self {
                    RequestUpdateResult::NoUpdate => true,
                    RequestUpdateResult::Update(u) => u.kind.spec_valid(),
                },
                Err(e) => match *self {
                    RequestUpdateResult::NoUpdate => false,
                    RequestUpdateResult::Update(u) => !u.kind.spec_valid() && e == (Error::Length {
                        val: u.kind.spec_size(),
                        max: TEXT_BUFFER_SIZE,
                    }),
                },
            },
    {
        match *self {
            RequestUpdateResult::NoUpdate => Ok(()),
            RequestUpdateResult::Update(u) => match u.kind {
                UpdateKind::Image => Ok(()),
                UpdateKind::Text(len) => {
                    let size = len as usize;
                    if size > TEXT_BUFFER_SIZE {
                        Err(Error::Length { val: size, max: TEXT_BUFFER_SIZE })
                    } else {
                        Ok(())
                    }
                },
            },
        }
    }
}

} // verus!
