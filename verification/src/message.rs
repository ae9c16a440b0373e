//! The backend's message model: what the repository stores and what the
//! device session handler serves.
//!
//! Text content is bounded by the device's text buffer; image content
//! always carries a raw RGB565 buffer of exactly the device's image size
//! (plus the PNG it was converted from, for the web client). Times are
//! plain counts: `created_at` in repository ticks, `duration` in seconds.
use vstd::prelude::*;
use vstd::string::StringSliceAdditionalSpecFns;

use crate::consts::{IMAGE_BUFFER_SIZE, IMAGE_HEIGHT, IMAGE_WIDTH, TEXT_BUFFER_SIZE};
use crate::protocol::UpdateKind;
use crate::types::{DeviceID, MessageID, TextLength};

verus! {

/// Byte length of one RGBA pixel as handed in by the image pipeline.
pub const RGBA_BYTES_PER_PIXEL: usize = 4;

/// Why content was refused.
#[derive(Debug, Clone, Copy, PartialEq, Eq, Structural)]
pub enum ContentError {
    /// A text message longer than the device's text buffer.
    TextTooLong,
    /// A pixel buffer that is not exactly one full screen of RGBA pixels.
    BadImageSize,
    /// A text split that would cut a UTF-8 character in half.
    TextSplit,
}

/// Which interface submitted a message.
#[derive(Debug, Clone, Copy, PartialEq, Eq, Structural)]
pub enum SenderID {
    Web,
    Telegram,
}

/// Textual content of a message, bounded by the device's text buffer.
#[derive(Debug)]
pub struct TextContent {
    pub text: String,
}

impl TextContent {
    /// The UTF-8 byte length of the text.
    pub open spec fn spec_byte_len(self) -> nat {
        vstd::utf8::encode_utf8(self.text@).len()
    }

    /// The text fits the device's text buffer.
    pub open spec fn wf(self) -> bool {
        self.spec_byte_len() <= TEXT_BUFFER_SIZE
    }

    pub fn text(&self) -> (r: &str)
        ensures
            r@ == self.text@,
    {
        self.text.as_str()
    }
}

/// Image content of a message: the PNG shown by the web client and the
/// raw RGB565 buffer streamed to the device.
#[derive(Debug)]
pub struct ImageContent {
    pub png: Vec<u8>,
    pub rgb565: Vec<u8>,
}

impl ImageContent {
    /// The raw buffer is always exactly one full screen.
    pub open spec fn wf(self) -> bool {
        self.rgb565@.len() == IMAGE_BUFFER_SIZE
    }

    pub fn png(&self) -> (r: &[u8])
        ensures
            r@ == self.png@,
    {
        self.png.as_slice()
    }

    pub fn rgb565(&self) -> (r: &[u8])
        ensures
            r@ == self.rgb565@,
    {
        self.rgb565.as_slice()
    }
}

/// The content of a message.
#[derive(Debug)]
pub enum MessageContent {
    Text(TextContent),
    Image(ImageContent),
}

/// The RGB565 big-endian byte pair that one sRGB pixel converts to: a
/// function of the three channel values alone.
pub uninterp spec fn spec_srgb_to_rgb565_be(r: u8, g: u8, b: u8) -> Seq<u8>;

/// Relies on `rgb565::Rgb565::from_srgb888_components` (and its
/// big-endian serialization `to_rgb565_be`): converts one sRGB pixel to
/// the two bytes of its RGB565 value, determined by the channels alone.
#[verifier::external_body]
fn srgb_to_rgb565_be(r: u8, g: u8, b: u8) -> (pair: (u8, u8))
    ensures
        seq![pair.0, pair.1] == spec_srgb_to_rgb565_be(r, g, b),
{
    let [c1, c2] = rgb565::Rgb565::from_srgb888_components(r, g, b).to_rgb565_be();
    (c1, c2)
}

impl MessageContent {
    /// Every variant's content is well formed.
    pub open spec fn wf(self) -> bool {
        match self {
            MessageContent::Text(tc) => tc.wf(),
            MessageContent::Image(img) => img.wf(),
        }
    }

    /// The wire kind announcing this content: its text byte length, or
    /// an image.
    pub open spec fn spec_kind(self) -> UpdateKind {
        match self {
            MessageContent::Text(tc) => UpdateKind::Text(tc.spec_byte_len() as TextLength),
            MessageContent::Image(_) => UpdateKind::Image,
        }
    }

    /// The wire kind of this content.
    pub fn update_kind(&self) -> (r: UpdateKind)
        requires
            self.wf(),
        ensures
            r == self.spec_kind(),
            r.spec_valid(),
    {
        match self {
            MessageContent::Text(tc) => UpdateKind::Text(tc.text.as_str().len() as TextLength),
            MessageContent::Image(_) => UpdateKind::Image,
        }
    }

    /// The payload bytes as a sequence: the text as UTF-8, or the raw
    /// image buffer.
    pub open spec fn spec_payload(self) -> Seq<u8> {
        match self {
            MessageContent::Text(tc) => vstd::utf8::encode_utf8(tc.text@),
            MessageContent::Image(img) => img.rgb565@,
        }
    }

    /// The raw payload bytes that follow this content's announcement on
    /// the wire: the text as UTF-8, or the raw image buffer. Exactly as
    /// many bytes as the announced kind's size.
    pub fn payload_bytes(&self) -> (r: Vec<u8>)
        requires
            self.wf(),
        ensures
            r@ == self.spec_payload(),
            r@.len() == self.spec_kind().spec_size(),
    {
        match self {
            MessageContent::Text(tc) => tc.text.as_str().as_bytes_vec(),
            MessageContent::Image(img) => copy_bytes(&img.rgb565),
        }
    }

    /// Accepts a text message iff its UTF-8 byte length fits the
    /// device's text buffer.
    pub fn new_text(text: &str) -> (r: Result<Self, ContentError>)
        ensures
            match r {
                Ok(c) => {
                    &&& c.wf()
                    &&& c matches MessageContent::Text(tc) && tc.text@ == text@
                    &&& text.spec_bytes().len() <= TEXT_BUFFER_SIZE
                },
                Err(e) => {
                    &&& e == ContentError::TextTooLong
                    &&& text.spec_bytes().len() > TEXT_BUFFER_SIZE
                },
            },
    {
        if text.as_bytes().len() <= TEXT_BUFFER_SIZE {
            Ok(MessageContent::Text(TextContent { text: text.to_owned() }))
        } else {
            Err(ContentError::TextTooLong)
        }
    }

    /// Splits a long text into full text-buffer-sized pieces, in order;
    /// a trailing piece shorter than the buffer is not kept. Fails only
    /// where a piece boundary would cut a UTF-8 character in half.
    pub fn new_texts(text: String) -> (r: Result<Vec<Self>, ContentError>)
        ensures
            match r {
                Ok(v) => {
                    &&& v@.len() == spec_full_chunks(vstd::utf8::encode_utf8(text@).len() as int)
                    &&& forall|k: int| 0 <= k < v@.len() ==> #[trigger] v@[k].wf()
                    &&& forall|k: int| 0 <= k < v@.len() ==> ((#[trigger] v@[k]) matches MessageContent::Text(tc)
                        && vstd::utf8::encode_utf8(tc.text@) == vstd::utf8::encode_utf8(text@).subrange(
                        k * TEXT_BUFFER_SIZE,
                        (k + 1) * TEXT_BUFFER_SIZE,
                    ))
                },
                Err(e) => e == ContentError::TextSplit,
            },
    {
        let ghost all = vstd::utf8::encode_utf8(text@);
        let mut texts: Vec<MessageContent> = Vec::new();
        let mut rest: &str = text.as_str();
        while rest.as_bytes().len() > TEXT_BUFFER_SIZE
            invariant
                rest.spec_bytes() == all.subrange(
                    texts@.len() * TEXT_BUFFER_SIZE as int,
                    all.len() as int,
                ),
                texts@.len() * TEXT_BUFFER_SIZE + rest.spec_bytes().len() == all.len(),
                texts@.len() > 0 ==> rest.spec_bytes().len() > 0,
                forall|k: int| 0 <= k < texts@.len() ==> #[trigger] texts@[k].wf(),
                forall|k: int| 0 <= k < texts@.len() ==> ((#[trigger] texts@[k]) matches MessageContent::Text(tc)
                    && vstd::utf8::encode_utf8(tc.text@) == all.subrange(
                    k * TEXT_BUFFER_SIZE,
                    (k + 1) * TEXT_BUFFER_SIZE,
                )),
            decreases rest.spec_bytes().len(),
        {
            if !rest.is_char_boundary(TEXT_BUFFER_SIZE) {
                return Err(ContentError::TextSplit);
            }
            let (chunk, tail) = rest.split_at(TEXT_BUFFER_SIZE);
            let ghost done = texts@.len() as int;
            texts.push(MessageContent::Text(TextContent { text: chunk.to_owned() }));
            rest = tail;
            proof {
                assert(vstd::utf8::encode_utf8(chunk@) == chunk.spec_bytes());
                assert(chunk.spec_bytes() =~= all.subrange(
                    done * TEXT_BUFFER_SIZE,
                    (done + 1) * TEXT_BUFFER_SIZE,
                ));
                assert(rest.spec_bytes() =~= all.subrange(
                    (done + 1) * TEXT_BUFFER_SIZE,
                    all.len() as int,
                ));
            }
        }
        proof {
            let n = all.len() as int;
            let k = texts@.len() as int;
            let rl = rest.spec_bytes().len() as int;
            if k > 0 {
                vstd::arithmetic::div_mod::lemma_fundamental_div_mod_converse(
                    n - 1,
                    TEXT_BUFFER_SIZE as int,
                    k,
                    rl - 1,
                );
            }
            assert(texts@.len() == spec_full_chunks(all.len() as int));
        }
        Ok(texts)
    }

    /// Builds image content from the PNG for the web client and one full
    /// screen of resized RGBA pixels, converting each pixel to its
    /// big-endian RGB565 pair for the device. Refuses a pixel buffer
    /// that is not exactly one full screen.
    pub fn new_image(png: Vec<u8>, rgba: &Vec<u8>) -> (r: Result<Self, ContentError>)
        ensures
            match r {
                Ok(c) => {
                    &&& c.wf()
                    &&& rgba@.len() == IMAGE_WIDTH * IMAGE_HEIGHT * RGBA_BYTES_PER_PIXEL
                    &&& c matches MessageContent::Image(img) && {
                        &&& img.png@ == png@
                        &&& img.rgb565@.len() == IMAGE_BUFFER_SIZE
                        &&& forall|p: int| 0 <= p < IMAGE_WIDTH * IMAGE_HEIGHT
                            ==> #[trigger] img.rgb565@.subrange(2 * p, 2 * p + 2)
                            == spec_srgb_to_rgb565_be(
                            rgba@[RGBA_BYTES_PER_PIXEL * p],
                            rgba@[RGBA_BYTES_PER_PIXEL * p + 1],
                            rgba@[RGBA_BYTES_PER_PIXEL * p + 2],
                        )
                    }
                },
                Err(e) => {
                    &&& e == ContentError::BadImageSize
                    &&& rgba@.len() != IMAGE_WIDTH * IMAGE_HEIGHT * RGBA_BYTES_PER_PIXEL
                },
            },
    {
        let pixel_count = IMAGE_WIDTH * IMAGE_HEIGHT;
        if rgba.len() != pixel_count * RGBA_BYTES_PER_PIXEL {
            return Err(ContentError::BadImageSize);
        }
        let mut rgb565: Vec<u8> = Vec::new();
        let mut p: usize = 0;
        while p < pixel_count
            invariant
                p <= pixel_count,
                pixel_count == IMAGE_WIDTH * IMAGE_HEIGHT,
                rgba@.len() == pixel_count * RGBA_BYTES_PER_PIXEL,
                rgb565@.len() == 2 * p,
                forall|q: int| 0 <= q < p ==> #[trigger] rgb565@.subrange(2 * q, 2 * q + 2)
                    == spec_srgb_to_rgb565_be(
                    rgba@[RGBA_BYTES_PER_PIXEL * q],
                    rgba@[RGBA_BYTES_PER_PIXEL * q + 1],
                    rgba@[RGBA_BYTES_PER_PIXEL * q + 2],
                ),
            decreases pixel_count - p,
        {
            let base = p * RGBA_BYTES_PER_PIXEL;
            let (c1, c2) = srgb_to_rgb565_be(rgba[base], rgba[base + 1], rgba[base + 2]);
            let ghost prev = rgb565@;
            rgb565.push(c1);
            rgb565.push(c2);
            proof {
                assert(rgb565@.subrange(2 * p as int, 2 * p as int + 2) =~= seq![c1, c2]);
                assert forall|q: int| 0 <= q < p + 1 implies #[trigger] rgb565@.subrange(
                    2 * q,
                    2 * q + 2,
                ) == spec_srgb_to_rgb565_be(
                    rgba@[RGBA_BYTES_PER_PIXEL * q],
                    rgba@[RGBA_BYTES_PER_PIXEL * q + 1],
                    rgba@[RGBA_BYTES_PER_PIXEL * q + 2],
                ) by {
                    if q < p {
                        assert(rgb565@.subrange(2 * q, 2 * q + 2) =~= prev.subrange(
                            2 * q,
                            2 * q + 2,
                        ));
                    }
                }
            }
            p += 1;
        }
        Ok(MessageContent::Image(ImageContent { png, rgb565 }))
    }
}

/// How many full text-buffer-sized pieces `new_texts` keeps out of `n`
/// bytes: every piece that is followed by at least one more byte.
pub open spec fn spec_full_chunks(n: int) -> int {
    if n <= TEXT_BUFFER_SIZE {
        0
    } else {
        (n - 1) / TEXT_BUFFER_SIZE as int
    }
}

/// Copies a byte vector.
fn copy_bytes(src: &Vec<u8>) -> (r: Vec<u8>)
    ensures
        r@ == src@,
{
    let mut r: Vec<u8> = Vec::new();
    let n = src.len();
    let mut k: usize = 0;
    while k < n
        invariant
            k <= n,
            n == src@.len(),
            r@ =~= src@.subrange(0, k as int),
        decreases n - k,
    {
        r.push(src[k]);
        k += 1;
    }
    assert(r@ =~= src@);
    r
}

/// Addressing and lifetime of a message: which device it is for and how
/// long it stays fresh, in seconds.
#[derive(Debug, Clone, Copy, PartialEq, Eq, Structural)]
pub struct MessageMeta {
    pub receiver_id: DeviceID,
    pub duration_secs: u32,
}

/// One message in the backend repository, ordered by `created_at`.
#[derive(Debug)]
pub struct Message {
    pub id: MessageID,
    pub meta: MessageMeta,
    pub sender_id: SenderID,
    pub created_at: u64,
    pub content: MessageContent,
}

/// A message as submitted, before the repository assigns its id.
#[derive(Debug)]
pub struct InsertMessage {
    pub meta: MessageMeta,
    pub sender_id: SenderID,
    pub created_at: u64,
    pub content: MessageContent,
}

impl Message {
    /// Stamps a submitted message with its repository-assigned id.
    pub fn from_insert(id: MessageID, message: InsertMessage) -> (r: Self)
        ensures
            r.id == id,
            r.meta == message.meta,
            r.sender_id == message.sender_id,
            r.created_at == message.created_at,
            r.content == message.content,
    {
        Message {
            id,
            meta: message.meta,
            sender_id: message.sender_id,
            created_at: message.created_at,
            content: message.content,
        }
    }
}

impl InsertMessage {
    pub fn new(meta: MessageMeta, sender_id: SenderID, created_at: u64, content: MessageContent)
        -> (r: Self)
        ensures
            r.meta == meta,
            r.sender_id == sender_id,
            r.created_at == created_at,
            r.content == content,
    {
        InsertMessage { meta, sender_id, created_at, content }
    }
}

/// The reply of the web API when a new message was created.
#[derive(Debug, Clone, Copy, PartialEq, Eq, Structural)]
pub struct NewMessageCreated {
    pub id: MessageID,
}

} // verus!
