//! The backend's in-memory message repository.
//!
//! Messages are append-only; the repository assigns each message its
//! insertion sequence number as id, so ids equal positions and are
//! monotonically non-decreasing in `created_at` order of appends.
use vstd::prelude::*;

use crate::message::{InsertMessage, Message};
use crate::types::{DeviceID, MessageID};

verus! {

/// The in-memory repository: the append-only message list.
pub struct MemoryDb {
    pub messages: Vec<Message>,
}

impl MemoryDb {
    /// Every message's id is its position and its content is well
    /// formed.
    pub open spec fn wf(self) -> bool {
        &&& self.messages@.len() <= u32::MAX
        &&& forall|i: int| 0 <= i < self.messages@.len() ==> (#[trigger] self.messages@[i]).id
            == (MessageID { 0: i as u32 })
        &&& forall|i: int| 0 <= i < self.messages@.len()
            ==> (#[trigger] self.messages@[i]).content.wf()
    }

    /// Position `j` holds the first (and, with `wf`, only) message with
    /// this id.
    pub open spec fn is_first_with_id(self, j: int, id: MessageID) -> bool {
        &&& 0 <= j < self.messages@.len()
        &&& self.messages@[j].id == id
        &&& forall|k: int| 0 <= k < j ==> (#[trigger] self.messages@[k]).id != id
    }

    /// The message at `i` is still pending for `receiver` given the
    /// cursor `after`: addressed to the receiver, and created after the
    /// message the cursor names (an unknown cursor excludes nothing).
    pub open spec fn msg_qualifies(self, i: int, receiver: DeviceID, after: Option<MessageID>)
        -> bool {
        &&& 0 <= i < self.messages@.len()
        &&& self.messages@[i].meta.receiver_id == receiver
        &&& match after {
            None => true,
            Some(id) => forall|j: int| #[trigger] self.is_first_with_id(j, id)
                ==> self.messages@[i].created_at > self.messages@[j].created_at,
        }
    }

    /// An empty repository.
    pub fn new() -> (r: Self)
        ensures
            r.wf(),
            r.messages@.len() == 0,
    {
        MemoryDb { messages: Vec::new() }
    }

    /// The id the next appended message will get: the insertion sequence
    /// number.
    pub fn next_id(&self) -> (r: MessageID)
        requires
            self.wf(),
        ensures
            r == (MessageID { 0: self.messages@.len() as u32 }),
    {
        MessageID(self.messages.len() as u32)
    }

    /// Appends a submitted message under the next sequence id, which is
    /// returned.
    pub fn add_message(&mut self, message: InsertMessage) -> (r: MessageID)
        requires
            old(self).wf(),
            message.content.wf(),
            old(self).messages@.len() < u32::MAX,
        ensures
            final(self).wf(),
            r == (MessageID { 0: old(self).messages@.len() as u32 }),
            final(self).messages@.len() == old(self).messages@.len() + 1,
            final(self).messages@ == old(self).messages@.push(
                final(self).messages@[old(self).messages@.len() as int],
            ),
            final(self).messages@[old(self).messages@.len() as int].id == r,
            final(self).messages@[old(self).messages@.len() as int].meta == message.meta,
            final(self).messages@[old(self).messages@.len() as int].sender_id
                == message.sender_id,
            final(self).messages@[old(self).messages@.len() as int].created_at
                == message.created_at,
            final(self).messages@[old(self).messages@.len() as int].content == message.content,
    {
        let id = MessageID(self.messages.len() as u32);
        let message = Message::from_insert(id, message);
        self.messages.push(message);
        proof {
            assert(self.messages@ =~= old(self).messages@.push(
                self.messages@[old(self).messages@.len() as int],
            ));
        }
        id
    }

    /// Finds the message with this id: the first position holding it, or
    /// nothing if no message has it.
    pub fn get_message(&self, id: MessageID) -> (r: Option<&Message>)
        ensures
            match r {
                None => forall|j: int| 0 <= j < self.messages@.len() ==> (
                #[trigger] self.messages@[j]).id != id,
                Some(m) => exists|j: int| #[trigger] self.is_first_with_id(j, id) && *m
                    == self.messages@[j],
            },
    {
        let n = self.messages.len();
        let mut k: usize = 0;
        while k < n
            invariant
                k <= n,
                n == self.messages@.len(),
                forall|j: int| 0 <= j < k ==> (#[trigger] self.messages@[j]).id != id,
            decreases n - k,
        {
            if self.messages[k].id == id {
                assert(self.is_first_with_id(k as int, id));
                return Some(&self.messages[k]);
            }
            k += 1;
        }
        None
    }

    /// The earliest pending message for `receiver` after the cursor: the
    /// qualifying message with the smallest `created_at`, earliest
    /// position breaking ties; or nothing once the device has consumed
    /// everything addressed to it.
    pub fn get_next_message(&self, receiver_id: DeviceID, after_id: Option<MessageID>) -> (r:
        Option<&Message>)
        ensures
            match r {
                None => forall|i: int| !self.msg_qualifies(i, receiver_id, after_id),
                Some(m) => exists|i: int| {
                    &&& #[trigger] self.msg_qualifies(i, receiver_id, after_id)
                    &&& *m == self.messages@[i]
                    &&& forall|j: int| #[trigger] self.msg_qualifies(j, receiver_id, after_id)
                        ==> self.messages@[i].created_at <= self.messages@[j].created_at
                    &&& forall|j: int| 0 <= j < i && #[trigger] self.msg_qualifies(
                        j,
                        receiver_id,
                        after_id,
                    ) ==> self.messages@[j].created_at > self.messages@[i].created_at
                },
            },
    {
        let cutoff: Option<u64> = match after_id {
            None => None,
            Some(id) => match self.get_message(id) {
                None => None,
                Some(m) => {
                    let c = m.created_at;
                    proof {
                        let j = choose|j: int|
                            #[trigger] self.is_first_with_id(j, id) && *m == self.messages@[j];
                        assert forall|i: int| #[trigger] self.msg_qualifies(i, receiver_id, after_id)
                            == self.candidate(i, receiver_id, Some(c)) by {
                            assert forall|j2: int| #[trigger] self.is_first_with_id(j2, id) implies j2
                                == j by {
                                if j2 < j {
                                    assert(self.messages@[j2].id != id);
                                } else if j < j2 {
                                    assert(self.messages@[j].id != id);
                                }
                            }
                            if self.candidate(i, receiver_id, Some(c))
                                && !self.msg_qualifies(i, receiver_id, after_id) {
                                assert(self.is_first_with_id(j, id));
                            }
                        }
                    }
                    Some(c)
                },
            },
        };
        assert(forall|i: int| #[trigger] self.msg_qualifies(i, receiver_id, after_id)
            == self.candidate(i, receiver_id, cutoff));
        let n = self.messages.len();
        let mut best: Option<usize> = None;
        let mut k: usize = 0;
        while k < n
            invariant
                k <= n,
                n == self.messages@.len(),
                match best {
                    None => forall|i: int| 0 <= i < k ==> !self.candidate(i, receiver_id, cutoff),
                    Some(b) => {
                        &&& b < k
                        &&& self.candidate(b as int, receiver_id, cutoff)
                        &&& forall|i: int| 0 <= i < k && #[trigger] self.candidate(
                            i,
                            receiver_id,
                            cutoff,
                        ) ==> self.messages@[b as int].created_at <= self.messages@[i].created_at
                        &&& forall|i: int| 0 <= i < b && #[trigger] self.candidate(
                            i,
                            receiver_id,
                            cutoff,
                        ) ==> self.messages@[i].created_at > self.messages@[b as int].created_at
                    },
                },
            decreases n - k,
        {
            let m = &self.messages[k];
            let is_candidate = m.meta.receiver_id == receiver_id && match cutoff {
                None => true,
                Some(c) => m.created_at > c,
            };
            if is_candidate {
                let replace = match best {
                    None => true,
                    Some(b) => m.created_at < self.messages[b].created_at,
                };
                if replace {
                    best = Some(k);
                }
            }
            k += 1;
        }
        match best {
            None => {
                assert forall|i: int| !self.msg_qualifies(i, receiver_id, after_id) by {
                    if 0 <= i < self.messages@.len() {
                        assert(!self.candidate(i, receiver_id, cutoff));
                    }
                }
                None
            },
            Some(b) => {
                assert(self.msg_qualifies(b as int, receiver_id, after_id));
                assert forall|j: int| #[trigger] self.msg_qualifies(j, receiver_id, after_id)
                    implies self.messages@[b as int].created_at
                    <= self.messages@[j].created_at by {
                    assert(self.candidate(j, receiver_id, cutoff));
                }
                assert forall|j: int| 0 <= j < b && #[trigger] self.msg_qualifies(
                    j,
                    receiver_id,
                    after_id,
                ) implies self.messages@[j].created_at
                    > self.messages@[b as int].created_at by {
                    assert(self.candidate(j, receiver_id, cutoff));
                }
                Some(&self.messages[b])
            },
        }
    }

    /// The message at `i` is addressed to `receiver` and created after
    /// the cutoff time, if one is known.
    pub open spec fn candidate(self, i: int, receiver: DeviceID, cutoff: Option<u64>) -> bool {
        &&& 0 <= i < self.messages@.len()
        &&& self.messages@[i].meta.receiver_id == receiver
        &&& match cutoff {
            None => true,
            Some(c) => self.messages@[i].created_at > c,
        }
    }
}

} // verus!
