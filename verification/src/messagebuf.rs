//! Device-resident fixed-capacity message cache.
//!
//! The cache holds two fixed-length slot arrays, one for text and one for
//! image content. No slot is ever added or removed at runtime, only
//! overwritten. Each slot carries freshness metadata; a slot is *active*
//! at `now` iff `now < updated_at + lifetime`. The write path picks the
//! slot to overwrite (lowest-indexed inactive slot, else the oldest); the
//! read path picks the next slot to display in a recency-ordered round
//! robin over the active slots of both arrays.
//!
//! Time enters every operation as an explicit tick count in seconds, so
//! that the algorithms are functions of their arguments alone.
use vstd::prelude::*;

use crate::consts::{IMAGE_BUFFER_SIZE, TEXT_BUFFER_SIZE};
use crate::protocol::Update;

verus! {

/// Number of text slots in the cache.
pub const TEXT_MESSAGE_NUM: usize = 10;

/// Number of image slots in the cache.
pub const IMAGE_MESSAGE_NUM: usize = 2;

/// Marker for the content types a message slot can hold.
pub trait MessageData {
}

/// Text content of one slot, bounded by the text buffer capacity.
#[derive(Debug)]
pub struct TextData {
    pub text: String,
}

/// Image content of one slot: a raw pixel buffer that always holds
/// exactly the fixed image size, never partially valid.
#[derive(Debug)]
pub struct ImageData {
    pub image: Vec<u8>,
}

impl MessageData for TextData {
}

impl MessageData for ImageData {
}

impl TextData {
    /// The UTF-8 byte length of the stored text.
    pub open spec fn spec_byte_len(self) -> nat {
        vstd::utf8::encode_utf8(self.text@).len()
    }

    /// The stored text always fits the fixed text buffer.
    pub open spec fn wf(self) -> bool {
        self.spec_byte_len() <= TEXT_BUFFER_SIZE
    }

    /// An empty, well-formed text slot.
    pub fn new() -> (r: Self)
        ensures
            r.wf(),
            r.text@ == Seq::<char>::empty(),
    {
        let r = TextData { text: String::new() };
        assert(r.spec_byte_len() == 0);
        r
    }
}

impl ImageData {
    /// The buffer always holds exactly the fixed image size.
    pub open spec fn wf(self) -> bool {
        self.image@.len() == IMAGE_BUFFER_SIZE
    }

    /// A zeroed, well-formed image slot.
    pub fn new() -> (r: Self)
        ensures
            r.wf(),
            forall|i: int| 0 <= i < r.image@.len() ==> r.image@[i] == 0u8,
    {
        ImageData { image: vec![0u8; IMAGE_BUFFER_SIZE] }
    }
}

/// Freshness metadata of one slot: how long the content lives and when it
/// was written, both in seconds.
#[derive(Debug, Clone, Copy, PartialEq, Eq, Structural)]
pub struct MessageMeta {
    pub lifetime: u64,
    pub updated_at: u64,
}

impl MessageMeta {
    /// A slot is active while its content has not yet expired.
    pub open spec fn spec_is_active(self, now: u64) -> bool {
        (now as int) < self.updated_at + self.lifetime
    }

    /// Metadata of a slot that has never been written: inactive at any
    /// time.
    pub fn new() -> (r: Self)
        ensures
            r.lifetime == 0,
            r.updated_at == 0,
            forall|now: u64| !r.spec_is_active(now),
    {
        MessageMeta { lifetime: 0, updated_at: 0 }
    }

    pub fn is_active(&self, now: u64) -> (r: bool)
        ensures
            r == self.spec_is_active(now),
    {
        match self.updated_at.checked_add(self.lifetime) {
            Some(expiry) => now < expiry,
            None => true,
        }
    }
}

/// One cache slot: content plus freshness metadata.
pub struct Message<T> {
    pub data: T,
    pub meta: MessageMeta,
}

impl<T> Message<T> {
    /// Marks the slot as freshly written at `now`, with the lifetime the
    /// update announced. The content itself is stored separately.
    pub fn update_meta(&mut self, update: &Update, now: u64)
        ensures
            final(self).data == old(self).data,
            final(self).meta == (MessageMeta {
                lifetime: update.lifetime_sec as u64,
                updated_at: now,
            }),
    {
        self.meta.updated_at = now;
        self.meta.lifetime = update.lifetime_sec as u64;
    }
}

/// A snapshot of one slot handed to the display: owned content plus the
/// freshness metadata it had when it was read.
#[derive(Debug)]
pub enum DisplayMessageData {
    Text(TextData),
    Image(ImageData),
}

/// What the display renders next: content and its metadata.
#[derive(Debug)]
pub struct DisplayMessage {
    pub data: DisplayMessageData,
    pub meta: MessageMeta,
}

/// The whole message cache: a fixed array of text slots and a fixed array
/// of image slots.
pub struct Messages {
    pub texts: Vec<Message<TextData>>,
    pub images: Vec<Message<ImageData>>,
}

impl Messages {
    /// Both arrays have their fixed capacity and every slot's content is
    /// well formed.
    pub open spec fn wf(self) -> bool {
        &&& self.texts@.len() == TEXT_MESSAGE_NUM
        &&& self.images@.len() == IMAGE_MESSAGE_NUM
        &&& forall|i: int| 0 <= i < self.texts@.len() ==> (#[trigger] self.texts@[i]).data.wf()
        &&& forall|i: int| 0 <= i < self.images@.len() ==> (#[trigger] self.images@[i]).data.wf()
    }

    /// Total number of slots, text slots first.
    pub open spec fn slot_count(self) -> int {
        self.texts@.len() + self.images@.len() as int
    }

    /// Metadata of slot `i` in the combined text-then-image order.
    pub open spec fn slot_meta(self, i: int) -> MessageMeta {
        if i < self.texts@.len() {
            self.texts@[i].meta
        } else {
            self.images@[i - self.texts@.len()].meta
        }
    }

    /// `d` is a faithful snapshot of slot `i` in the combined order: same
    /// metadata, same content kind, same content.
    pub open spec fn display_matches(self, d: DisplayMessage, i: int) -> bool {
        &&& d.meta == self.slot_meta(i)
        &&& if i < self.texts@.len() {
            match d.data {
                DisplayMessageData::Text(t) => t.text@ == self.texts@[i].data.text@,
                DisplayMessageData::Image(_) => false,
            }
        } else {
            match d.data {
                DisplayMessageData::Text(_) => false,
                DisplayMessageData::Image(img) => img.image@ == self.images@[i
                    - self.texts@.len()].data.image@,
            }
        }
    }

    /// Some slot is active at `now`.
    pub open spec fn has_active(self, now: u64) -> bool {
        exists|i: int| 0 <= i < self.slot_count() && (#[trigger] self.slot_meta(i)).spec_is_active(
            now,
        )
    }

    /// Slot `i` is active and strictly newer than `last`.
    pub open spec fn qualifies(self, i: int, last: u64, now: u64) -> bool {
        &&& 0 <= i < self.slot_count()
        &&& self.slot_meta(i).spec_is_active(now)
        &&& self.slot_meta(i).updated_at > last
    }

    /// Some active slot is strictly newer than `last`.
    pub open spec fn has_newer(self, last: u64, now: u64) -> bool {
        exists|i: int| #[trigger] self.qualifies(i, last, now)
    }

    /// Slot `i` is the active slot with the least `updated_at` strictly
    /// above `last`, lowest index breaking ties.
    pub open spec fn is_pick_after(self, i: int, last: u64, now: u64) -> bool {
        &&& self.qualifies(i, last, now)
        &&& forall|j: int| #[trigger] self.qualifies(j, last, now) ==> self.slot_meta(
            i,
        ).updated_at <= self.slot_meta(j).updated_at
        &&& forall|j: int| 0 <= j < i && #[trigger] self.qualifies(j, last, now)
            ==> self.slot_meta(j).updated_at > self.slot_meta(i).updated_at
    }

    /// Slot `i` is the active slot with the least `updated_at` overall,
    /// lowest index breaking ties.
    pub open spec fn is_pick_oldest(self, i: int, now: u64) -> bool {
        &&& 0 <= i < self.slot_count()
        &&& self.slot_meta(i).spec_is_active(now)
        &&& forall|j: int| 0 <= j < self.slot_count() && (#[trigger] self.slot_meta(
            j,
        )).spec_is_active(now) ==> self.slot_meta(i).updated_at <= self.slot_meta(j).updated_at
        &&& forall|j: int| 0 <= j < i && (#[trigger] self.slot_meta(j)).spec_is_active(now)
            ==> self.slot_meta(j).updated_at > self.slot_meta(i).updated_at
    }

    /// The slot the read path must choose, given the `updated_at` of the
    /// last item actually shown: the oldest active slot newer than it, or
    /// — once the rotation has reached the newest item — the oldest
    /// active slot overall.
    pub open spec fn is_choice(self, i: int, last: u64, now: u64) -> bool {
        if self.has_newer(last, now) {
            self.is_pick_after(i, last, now)
        } else {
            self.is_pick_oldest(i, now)
        }
    }

    /// A cache whose every slot is inactive (never written) and well
    /// formed.
    pub fn new() -> (r: Self)
        ensures
            r.wf(),
            forall|i: int, now: u64| 0 <= i < r.slot_count() ==> !#[trigger] r.slot_meta(
                i,
            ).spec_is_active(now),
    {
        let mut texts: Vec<Message<TextData>> = Vec::new();
        let mut k: usize = 0;
        while k < TEXT_MESSAGE_NUM
            invariant
                k <= TEXT_MESSAGE_NUM,
                texts@.len() == k,
                forall|i: int| 0 <= i < k ==> (#[trigger] texts@[i]).data.wf(),
                forall|i: int| 0 <= i < k ==> (#[trigger] texts@[i]).meta == (MessageMeta {
                    lifetime: 0u64,
                    updated_at: 0u64,
                }),
            decreases TEXT_MESSAGE_NUM - k,
        {
            texts.push(Message { data: TextData::new(), meta: MessageMeta::new() });
            k += 1;
        }
        let mut images: Vec<Message<ImageData>> = Vec::new();
        k = 0;
        while k < IMAGE_MESSAGE_NUM
            invariant
                k <= IMAGE_MESSAGE_NUM,
                images@.len() == k,
                forall|i: int| 0 <= i < k ==> (#[trigger] images@[i]).data.wf(),
                forall|i: int| 0 <= i < k ==> (#[trigger] images@[i]).meta == (MessageMeta {
                    lifetime: 0u64,
                    updated_at: 0u64,
                }),
            decreases IMAGE_MESSAGE_NUM - k,
        {
            images.push(Message { data: ImageData::new(), meta: MessageMeta::new() });
            k += 1;
        }
        Messages { texts, images }
    }
}

/// Index `i` is the slot the write path must overwrite among `slots` at
/// `now`: the lowest-indexed inactive slot if any slot is inactive,
/// otherwise the slot with the smallest `updated_at`, lowest index
/// breaking ties. This is the eviction rule: while every slot is active,
/// exactly the oldest one is evicted.
pub open spec fn is_write_slot<T>(slots: Seq<Message<T>>, i: int, now: u64) -> bool {
    &&& 0 <= i < slots.len()
    &&& (exists|j: int| 0 <= j < slots.len() && !(#[trigger] slots[j]).meta.spec_is_active(now))
        ==> {
        &&& !slots[i].meta.spec_is_active(now)
        &&& forall|j: int| 0 <= j < i ==> (#[trigger] slots[j]).meta.spec_is_active(now)
    }
    &&& (forall|j: int| 0 <= j < slots.len() ==> (#[trigger] slots[j]).meta.spec_is_active(now))
        ==> {
        &&& forall|j: int| 0 <= j < slots.len() ==> slots[i].meta.updated_at <= (
        #[trigger] slots[j]).meta.updated_at
        &&& forall|j: int| 0 <= j < i ==> (#[trigger] slots[j]).meta.updated_at
            > slots[i].meta.updated_at
    }
}

impl Messages {
    /// The write path for a text update: selects the slot to overwrite
    /// (lowest-indexed inactive slot, else the oldest active one, lowest
    /// index breaking ties), stores the content and marks the slot
    /// freshly written at `now`. Returns the overwritten slot's index.
    pub fn store_text(&mut self, update: &Update, data: TextData, now: u64) -> (i: usize)
        requires
            old(self).wf(),
            data.wf(),
        ensures
            final(self).wf(),
            is_write_slot(old(self).texts@, i as int, now),
            final(self).texts@ == old(self).texts@.update(i as int, Message {
                data: data,
                meta: MessageMeta { lifetime: update.lifetime_sec as u64, updated_at: now },
            }),
            final(self).images@ == old(self).images@,
    {
        let i = next_available_message(&self.texts, now);
        let slot = Message {
            data,
            meta: MessageMeta { lifetime: update.lifetime_sec as u64, updated_at: now },
        };
        self.texts.set(i, slot);
        i
    }

    /// Selects the text slot the next text message will be written into
    /// — the write path's choice — and clears its content, leaving its
    /// freshness metadata untouched until the payload has arrived.
    /// Returns the slot's index.
    pub fn next_available_text(&mut self, now: u64) -> (i: usize)
        requires
            old(self).wf(),
        ensures
            final(self).wf(),
            is_write_slot(old(self).texts@, i as int, now),
            final(self).texts@ == old(self).texts@.update(i as int, final(self).texts@[i as int]),
            final(self).texts@[i as int].meta == old(self).texts@[i as int].meta,
            final(self).texts@[i as int].data.text@ == Seq::<char>::empty(),
            final(self).images@ == old(self).images@,
    {
        let i = next_available_message(&self.texts, now);
        let meta = self.texts[i].meta;
        self.texts.set(i, Message { data: TextData::new(), meta });
        i
    }

    /// Selects the image slot the next image message will be written
    /// into and zeroes its buffer, as `next_available_text` does for
    /// text. Returns the slot's index.
    pub fn next_available_image(&mut self, now: u64) -> (i: usize)
        requires
            old(self).wf(),
        ensures
            final(self).wf(),
            is_write_slot(old(self).images@, i as int, now),
            final(self).images@ == old(self).images@.update(
                i as int,
                final(self).images@[i as int],
            ),
            final(self).images@[i as int].meta == old(self).images@[i as int].meta,
            final(self).images@[i as int].data.wf(),
            forall|k: int|
                0 <= k < final(self).images@[i as int].data.image@.len()
                    ==> final(self).images@[i as int].data.image@[k] == 0u8,
            final(self).texts@ == old(self).texts@,
    {
        let i = next_available_message(&self.images, now);
        let meta = self.images[i].meta;
        self.images.set(i, Message { data: ImageData::new(), meta });
        i
    }

    /// The write path for an image update, as for `store_text`.
    pub fn store_image(&mut self, update: &Update, data: ImageData, now: u64) -> (i: usize)
        requires
            old(self).wf(),
            data.wf(),
        ensures
            final(self).wf(),
            is_write_slot(old(self).images@, i as int, now),
            final(self).images@ == old(self).images@.update(i as int, Message {
                data: data,
                meta: MessageMeta { lifetime: update.lifetime_sec as u64, updated_at: now },
            }),
            final(self).texts@ == old(self).texts@,
    {
        let i = next_available_message(&self.images, now);
        let slot = Message {
            data,
            meta: MessageMeta { lifetime: update.lifetime_sec as u64, updated_at: now },
        };
        self.images.set(i, slot);
        i
    }
}

/// The write path's slot selection: the lowest-indexed inactive slot if
/// any slot is inactive, otherwise the slot with the smallest
/// `updated_at`, lowest index breaking ties. Always selects a slot, never
/// blocks, never fails.
fn next_available_message<T: MessageData>(messages: &Vec<Message<T>>, now: u64) -> (i: usize)
    requires
        messages@.len() > 0,
    ensures
        i < messages@.len(),
        (exists|j: int| 0 <= j < messages@.len() && !(#[trigger] messages@[j]).meta.spec_is_active(
            now,
        )) ==> {
            &&& !messages@[i as int].meta.spec_is_active(now)
            &&& forall|j: int| 0 <= j < i ==> (#[trigger] messages@[j]).meta.spec_is_active(now)
        },
        (forall|j: int| 0 <= j < messages@.len() ==> (#[trigger] messages@[j]).meta.spec_is_active(
            now,
        )) ==> {
            &&& forall|j: int| 0 <= j < messages@.len() ==> messages@[i as int].meta.updated_at <= (
            #[trigger] messages@[j]).meta.updated_at
            &&& forall|j: int| 0 <= j < i ==> (#[trigger] messages@[j]).meta.updated_at
                > messages@[i as int].meta.updated_at
        },
{
    let n = messages.len();
    let mut k: usize = 0;
    while k < n
        invariant
            k <= n,
            n == messages@.len(),
            forall|j: int| 0 <= j < k ==> (#[trigger] messages@[j]).meta.spec_is_active(now),
        decreases n - k,
    {
        if !messages[k].meta.is_active(now) {
            return k;
        }
        k += 1;
    }
    // Every slot is active: overwrite the oldest, lowest index first.
    let mut best: usize = 0;
    k = 1;
    while k < n
        invariant
            best < k <= n,
            n == messages@.len(),
            forall|j: int| 0 <= j < k ==> messages@[best as int].meta.updated_at <= (
            #[trigger] messages@[j]).meta.updated_at,
            forall|j: int| 0 <= j < best ==> (#[trigger] messages@[j]).meta.updated_at
                > messages@[best as int].meta.updated_at,
        decreases n - k,
    {
        if messages[k].meta.updated_at < messages[best].meta.updated_at {
            best = k;
        }
        k += 1;
    }
    best
}

impl Messages {
    /// Copy of the metadata of slot `i` in the combined text-then-image
    /// order.
    fn meta_at(&self, i: usize) -> (r: MessageMeta)
        requires
            i < self.slot_count(),
        ensures
            r == self.slot_meta(i as int),
    {
        if i < self.texts.len() {
            self.texts[i].meta
        } else {
            self.images[i - self.texts.len()].meta
        }
    }

    /// Owned snapshot of slot `i` in the combined order.
    fn display_at(&self, i: usize) -> (r: DisplayMessage)
        requires
            i < self.slot_count(),
        ensures
            self.display_matches(r, i as int),
    {
        if i < self.texts.len() {
            let slot = &self.texts[i];
            DisplayMessage {
                data: DisplayMessageData::Text(TextData { text: slot.data.text.clone() }),
                meta: slot.meta,
            }
        } else {
            let slot = &self.images[i - self.texts.len()];
            let mut image: Vec<u8> = Vec::new();
            let n = slot.data.image.len();
            let mut k: usize = 0;
            while k < n
                invariant
                    k <= n,
                    n == slot.data.image@.len(),
                    image@ =~= slot.data.image@.subrange(0, k as int),
                decreases n - k,
            {
                image.push(slot.data.image[k]);
                k += 1;
            }
            assert(image@ =~= slot.data.image@);
            DisplayMessage { data: DisplayMessageData::Image(ImageData { image }), meta: slot.meta }
        }
    }

    /// The read path: the next slot to display, given the `updated_at` of
    /// the last item actually shown. Prefers the oldest active slot
    /// strictly newer than `last_message_time`; once none qualifies,
    /// wraps around to the oldest active slot overall; with no active
    /// slot there is nothing to show. An expired slot is never returned.
    pub fn next_display_message_generic(&self, last_message_time: u64, now: u64) -> (r: Option<
        DisplayMessage,
    >)
        requires
            self.wf(),
        ensures
            match r {
                None => !self.has_active(now),
                Some(d) => {
                    &&& d.meta.spec_is_active(now)
                    &&& exists|i: int|
                        #[trigger] self.is_choice(i, last_message_time, now)
                            && self.display_matches(d, i)
                },
            },
    {
        let total = self.texts.len() + self.images.len();
        let mut best_newer: Option<usize> = None;
        let mut best_any: Option<usize> = None;
        let mut k: usize = 0;
        while k < total
            invariant
                k <= total,
                self.wf(),
                total == self.slot_count(),
                match best_any {
                    None => forall|j: int| 0 <= j < k ==> !#[trigger] self.slot_meta(
                        j,
                    ).spec_is_active(now),
                    Some(b) => {
                        &&& b < k
                        &&& self.slot_meta(b as int).spec_is_active(now)
                        &&& forall|j: int| 0 <= j < k && #[trigger] self.slot_meta(
                            j,
                        ).spec_is_active(now) ==> self.slot_meta(b as int).updated_at
                            <= self.slot_meta(j).updated_at
                        &&& forall|j: int| 0 <= j < b && #[trigger] self.slot_meta(
                            j,
                        ).spec_is_active(now) ==> self.slot_meta(j).updated_at > self.slot_meta(
                            b as int,
                        ).updated_at
                    },
                },
                match best_newer {
                    None => forall|j: int| 0 <= j < k ==> !self.qualifies(
                        j,
                        last_message_time,
                        now,
                    ),
                    Some(b) => {
                        &&& b < k
                        &&& self.qualifies(b as int, last_message_time, now)
                        &&& forall|j: int| 0 <= j < k && #[trigger] self.qualifies(
                            j,
                            last_message_time,
                            now,
                        ) ==> self.slot_meta(b as int).updated_at <= self.slot_meta(j).updated_at
                        &&& forall|j: int| 0 <= j < b && #[trigger] self.qualifies(
                            j,
                            last_message_time,
                            now,
                        ) ==> self.slot_meta(j).updated_at > self.slot_meta(b as int).updated_at
                    },
                },
            decreases total - k,
        {
            let m = self.meta_at(k);
            if m.is_active(now) {
                let replace_any = match best_any {
                    None => true,
                    Some(b) => m.updated_at < self.meta_at(b).updated_at,
                };
                if replace_any {
                    best_any = Some(k);
                }
                if m.updated_at > last_message_time {
                    let replace_newer = match best_newer {
                        None => true,
                        Some(b) => m.updated_at < self.meta_at(b).updated_at,
                    };
                    if replace_newer {
                        best_newer = Some(k);
                    }
                }
            }
            k += 1;
        }
        match best_newer {
            Some(b) => {
                assert(self.is_choice(b as int, last_message_time, now));
                Some(self.display_at(b))
            },
            None => match best_any {
                Some(b) => {
                    assert(self.is_choice(b as int, last_message_time, now));
                    Some(self.display_at(b))
                },
                None => None,
            },
        }
    }
}

/// Eviction: while every slot is active, the write path overwrites
/// exactly the slot with the smallest `updated_at` — so after filling
/// the whole array, the next write evicts the oldest of the lot.
pub proof fn lemma_eviction_oldest<T>(slots: Seq<Message<T>>, i: int, now: u64)
    requires
        is_write_slot(slots, i, now),
        forall|j: int| 0 <= j < slots.len() ==> (#[trigger] slots[j]).meta.spec_is_active(now),
    ensures
        forall|j: int| 0 <= j < slots.len() ==> slots[i].meta.updated_at <= (
        #[trigger] slots[j]).meta.updated_at,
        forall|j: int| 0 <= j < i ==> (#[trigger] slots[j]).meta.updated_at
            > slots[i].meta.updated_at,
{
}

/// Expiry, write side: as soon as any slot has expired, the write path
/// overwrites an expired slot — an expired slot is eligible for
/// immediate overwrite, and no live content is evicted for it.
pub proof fn lemma_expired_slot_overwritten<T>(slots: Seq<Message<T>>, i: int, j: int, now: u64)
    requires
        is_write_slot(slots, i, now),
        0 <= j < slots.len(),
        !slots[j].meta.spec_is_active(now),
    ensures
        !slots[i].meta.spec_is_active(now),
{
}

impl Messages {
    /// Expiry, read side: a slot whose content has expired
    /// (`updated_at + lifetime <= now`) is never what the read path
    /// chooses to display.
    pub proof fn lemma_expired_never_chosen(self, i: int, last: u64, now: u64)
        requires
            self.is_choice(i, last, now),
        ensures
            self.slot_meta(i).spec_is_active(now),
    {
    }

    /// The read path is deterministic: at most one slot can be the
    /// choice for a given `last` and `now`.
    pub proof fn lemma_choice_unique(self, i: int, j: int, last: u64, now: u64)
        requires
            self.is_choice(i, last, now),
            self.is_choice(j, last, now),
        ensures
            i == j,
    {
        if i != j {
            if self.has_newer(last, now) {
                assert(self.qualifies(i, last, now));
                assert(self.qualifies(j, last, now));
            }
        }
    }

    /// Rotation completeness, forward step: after showing the slot with
    /// `updated_at == last`, the next choice is strictly newer, and no
    /// active slot lies strictly between the two. Chained calls therefore
    /// visit every active slot exactly once, in increasing `updated_at`
    /// order, before the rotation wraps.
    pub proof fn lemma_rotation_advances(self, c: int, last: u64, now: u64)
        requires
            self.has_newer(last, now),
            self.is_choice(c, last, now),
        ensures
            self.slot_meta(c).updated_at > last,
            forall|j: int| 0 <= j < self.slot_count() && (#[trigger] self.slot_meta(
                j,
            )).spec_is_active(now) ==> self.slot_meta(j).updated_at <= last || self.slot_meta(
                j,
            ).updated_at >= self.slot_meta(c).updated_at,
    {
        assert forall|j: int| 0 <= j < self.slot_count() && (#[trigger] self.slot_meta(
            j,
        )).spec_is_active(now) implies self.slot_meta(j).updated_at <= last || self.slot_meta(
            j,
        ).updated_at >= self.slot_meta(c).updated_at by {
            if self.slot_meta(j).updated_at > last {
                assert(self.qualifies(j, last, now));
            }
        }
    }

    /// No two active slots share an `updated_at`.
    pub open spec fn distinct_update_times(self, now: u64) -> bool {
        forall|i: int, j: int|
            0 <= i < self.slot_count() && 0 <= j < self.slot_count() && i != j
                && (#[trigger] self.slot_meta(i)).spec_is_active(now) && (
            #[trigger] self.slot_meta(j)).spec_is_active(now) ==> self.slot_meta(i).updated_at
                != self.slot_meta(j).updated_at
    }

    /// `vs` records one full rotation of chained read-path calls: the
    /// first call starts from `last0`, each later call starts from the
    /// `updated_at` of the slot shown before it and still found a newer
    /// active slot, and after the last call nothing newer is left.
    pub open spec fn is_full_rotation(self, vs: Seq<int>, last0: u64, now: u64) -> bool {
        &&& vs.len() > 0
        &&& self.is_choice(vs[0], last0, now)
        &&& forall|k: int| 1 <= k < vs.len() ==> self.has_newer(
            (#[trigger] self.slot_meta(vs[k - 1])).updated_at,
            now,
        ) && self.is_choice(vs[k], self.slot_meta(vs[k - 1]).updated_at, now)
        &&& !self.has_newer(self.slot_meta(vs[vs.len() - 1]).updated_at, now)
    }

    /// Along a rotation chain the shown `updated_at` strictly increases.
    proof fn lemma_chain_increasing(self, vs: Seq<int>, last0: u64, now: u64, k1: int, k2: int)
        requires
            self.is_full_rotation(vs, last0, now),
            0 <= k1 < k2 < vs.len(),
        ensures
            self.slot_meta(vs[k1]).updated_at < self.slot_meta(vs[k2]).updated_at,
        decreases k2 - k1,
    {
        assert(self.qualifies(vs[k2], self.slot_meta(vs[k2 - 1]).updated_at, now));
        if k1 < k2 - 1 {
            self.lemma_chain_increasing(vs, last0, now, k1, k2 - 1);
        }
    }

    /// Every active slot whose `updated_at` lies at or below the k-th
    /// shown slot's — and above the start — has already been shown.
    proof fn lemma_chain_covers_prefix(self, vs: Seq<int>, last0: u64, now: u64, k: int, j: int)
        requires
            self.is_full_rotation(vs, last0, now),
            0 <= k < vs.len(),
            0 <= j < self.slot_count(),
            self.slot_meta(j).spec_is_active(now),
            self.slot_meta(j).updated_at > last0,
            self.slot_meta(j).updated_at <= self.slot_meta(vs[k]).updated_at,
            self.distinct_update_times(now),
        ensures
            exists|m: int| 0 <= m <= k && vs[m] == j,
        decreases k,
    {
        let upd_j = self.slot_meta(j).updated_at;
        if k == 0 {
            // The first call picks the least active time above `last0`;
            // `j` qualifies there, so the pick's time is at most `j`'s,
            // and with distinct times equality forces the same slot.
            assert(self.qualifies(j, last0, now));
            assert(self.is_pick_after(vs[0], last0, now));
            assert(self.slot_meta(vs[0]).updated_at <= upd_j);
            if vs[0] != j {
                assert(self.slot_meta(vs[0]).updated_at != upd_j);
                assert(false);
            }
            assert(vs[0] == j);
        } else {
            let prev = self.slot_meta(vs[k - 1]).updated_at;
            if upd_j <= prev {
                self.lemma_chain_covers_prefix(vs, last0, now, k - 1, j);
                let m = choose|m: int| 0 <= m <= k - 1 && vs[m] == j;
                assert(0 <= m <= k && vs[m] == j);
            } else {
                // `j` qualifies at the previous shown time; minimality of
                // the k-th pick and distinctness force it to be `j`.
                assert(self.qualifies(j, prev, now));
                assert(self.is_pick_after(vs[k], prev, now));
                assert(self.slot_meta(vs[k]).updated_at <= upd_j);
                if vs[k] != j {
                    assert(self.slot_meta(vs[k]).updated_at != upd_j);
                    assert(false);
                }
                assert(vs[k] == j);
            }
        }
    }

    /// Rotation completeness: with distinct update times, one full
    /// rotation of chained read-path calls — started below every active
    /// slot — shows every active slot exactly once, in strictly
    /// increasing `updated_at` order; the call after it wraps to the
    /// oldest active slot.
    pub proof fn lemma_rotation_complete(self, vs: Seq<int>, last0: u64, now: u64)
        requires
            self.distinct_update_times(now),
            self.is_full_rotation(vs, last0, now),
            forall|j: int|
                0 <= j < self.slot_count() && (#[trigger] self.slot_meta(j)).spec_is_active(now)
                    ==> self.slot_meta(j).updated_at > last0,
        ensures
            forall|k: int| 1 <= k < vs.len() ==> self.slot_meta(vs[k - 1]).updated_at < (
            #[trigger] self.slot_meta(vs[k])).updated_at,
            forall|k1: int, k2: int| 0 <= k1 < k2 < vs.len() ==> vs[k1] != vs[k2],
            forall|j: int|
                0 <= j < self.slot_count() && (#[trigger] self.slot_meta(j)).spec_is_active(now)
                    ==> vs.contains(j),
            forall|i: int| #[trigger] self.is_choice(
                i,
                self.slot_meta(vs[vs.len() - 1]).updated_at,
                now,
            ) ==> self.is_pick_oldest(i, now),
    {
        assert forall|k: int| 1 <= k < vs.len() implies self.slot_meta(vs[k - 1]).updated_at < (
        #[trigger] self.slot_meta(vs[k])).updated_at by {
            assert(self.qualifies(vs[k], self.slot_meta(vs[k - 1]).updated_at, now));
        }
        assert forall|k1: int, k2: int| 0 <= k1 < k2 < vs.len() implies vs[k1] != vs[k2] by {
            self.lemma_chain_increasing(vs, last0, now, k1, k2);
        }
        let last_shown = self.slot_meta(vs[vs.len() - 1]).updated_at;
        assert forall|j: int|
            0 <= j < self.slot_count() && (#[trigger] self.slot_meta(j)).spec_is_active(
                now,
            ) implies vs.contains(j) by {
            // Nothing newer than the last shown slot is left, so `j`
            // lies in the range the chain has covered.
            if self.slot_meta(j).updated_at > last_shown {
                assert(self.qualifies(j, last_shown, now));
                assert(false);
            }
            self.lemma_chain_covers_prefix(vs, last0, now, vs.len() - 1, j);
            let m = choose|m: int| 0 <= m <= vs.len() - 1 && vs[m] == j;
            assert(vs[m] == j);
        }
    }

    /// Rotation completeness, wrap step: once no active slot is newer
    /// than `last`, the choice is the oldest active slot overall.
    pub proof fn lemma_rotation_wraps(self, c: int, last: u64, now: u64)
        requires
            !self.has_newer(last, now),
            self.is_choice(c, last, now),
        ensures
            self.slot_meta(c).spec_is_active(now),
            forall|j: int| 0 <= j < self.slot_count() && (#[trigger] self.slot_meta(
                j,
            )).spec_is_active(now) ==> self.slot_meta(c).updated_at <= self.slot_meta(
                j,
            ).updated_at,
    {
    }
}

} // verus!
