//! The backend's device session handler: what one received command is
//! answered with.
//!
//! Per connection the backend loops: decode a `ClientCommand`, look up
//! the next pending message for the device, send the encoded
//! `RequestUpdateResult`, and — for an `Update` — immediately stream the
//! raw content bytes with no further handshake. A `NoUpdate` reply
//! closes the connection; malformed input aborts only that connection.
//! The socket work lives outside; this module makes every decision.
use vstd::prelude::*;

use crate::message_db::MemoryDb;
use crate::protocol::{ClientCommand, Error, RequestUpdateResult, Update};
use crate::types::{DeviceID, MessageID};

verus! {

/// The payload bytes of an optional payload buffer.
pub open spec fn spec_opt_bytes(p: Option<Vec<u8>>) -> Option<Seq<u8>> {
    match p {
        None => None,
        Some(v) => Some(v@),
    }
}

/// The correct answer to `RequestUpdate(receiver, after)` against `db`:
/// either nothing is pending and the reply is `NoUpdate` with no
/// payload, or the reply announces the earliest pending message
/// (smallest `created_at`, earliest position breaking ties) with its
/// repository metadata, and the payload is exactly that message's
/// content bytes — as many as the announced kind's size.
pub open spec fn spec_reply(
    db: MemoryDb,
    receiver: DeviceID,
    after: Option<MessageID>,
    res: RequestUpdateResult,
    payload: Option<Seq<u8>>,
) -> bool {
    ||| {
        &&& res matches RequestUpdateResult::NoUpdate
        &&& payload matches None
        &&& forall|i: int| !db.msg_qualifies(i, receiver, after)
    }
    ||| exists|i: int| {
        &&& #[trigger] db.msg_qualifies(i, receiver, after)
        &&& forall|j: int| #[trigger] db.msg_qualifies(j, receiver, after)
            ==> db.messages@[i].created_at <= db.messages@[j].created_at
        &&& forall|j: int| 0 <= j < i && #[trigger] db.msg_qualifies(j, receiver, after)
            ==> db.messages@[j].created_at > db.messages@[i].created_at
        &&& res == RequestUpdateResult::Update(Update {
            lifetime_sec: db.messages@[i].meta.duration_secs,
            id: db.messages@[i].id,
            kind: db.messages@[i].content.spec_kind(),
        })
        &&& payload matches Some(p) && p == db.messages@[i].content.spec_payload() && p.len()
            == db.messages@[i].content.spec_kind().spec_size()
    }
}

/// Answers one decoded command: the reply to send, and — when a message
/// is pending — the raw payload bytes to stream right after it. The
/// reply always passes the device's validity check.
pub fn handle_request(db: &MemoryDb, cmd: ClientCommand) -> (r: (
    RequestUpdateResult,
    Option<Vec<u8>>,
))
    requires
        db.wf(),
    ensures
        cmd matches ClientCommand::RequestUpdate(receiver, after) ==> spec_reply(
            *db,
            receiver,
            after,
            r.0,
            spec_opt_bytes(r.1),
        ),
        r.0.spec_valid(),
{
    match cmd {
        ClientCommand::RequestUpdate(receiver, after) => {
            match db.get_next_message(receiver, after) {
                None => (RequestUpdateResult::NoUpdate, None),
                Some(m) => {
                    proof {
                        let i = choose|i: int| {
                            &&& #[trigger] db.msg_qualifies(i, receiver, after)
                            &&& *m == db.messages@[i]
                            &&& forall|j: int| #[trigger] db.msg_qualifies(j, receiver, after)
                                ==> db.messages@[i].created_at <= db.messages@[j].created_at
                            &&& forall|j: int| 0 <= j < i && #[trigger] db.msg_qualifies(
                                j,
                                receiver,
                                after,
                            ) ==> db.messages@[j].created_at > db.messages@[i].created_at
                        };
                        assert(db.messages@[i].content.wf());
                    }
                    let kind = m.content.update_kind();
                    let update = Update { lifetime_sec: m.meta.duration_secs, id: m.id, kind };
                    let payload = m.content.payload_bytes();
                    (RequestUpdateResult::Update(update), Some(payload))
                },
            }
        },
    }
}

/// Handles one raw frame from the device: decodes the command, answers
/// it, and encodes the reply. A frame that does not decode aborts the
/// connection with exactly the decode error; nothing else does.
pub fn handle_request_frame(db: &MemoryDb, frame: &[u8]) -> (r: Result<
    (Vec<u8>, Option<Vec<u8>>),
    Error,
>)
    requires
        db.wf(),
    ensures
        match r {
            Err(e) => ClientCommand::spec_decode(frame@) matches Err(e2) && e == e2,
            Ok(out) => {
                &&& ClientCommand::spec_decode(frame@) matches Ok(cmd) && cmd matches ClientCommand::RequestUpdate(receiver, after)
                    && exists|res: RequestUpdateResult| {
                    &&& #[trigger] spec_reply(*db, receiver, after, res, spec_opt_bytes(out.1))
                    &&& out.0@ == res.spec_encoding()
                }
            },
        },
{
    match ClientCommand::decode(frame) {
        Err(e) => Err(e),
        Ok(cmd) => {
            let (res, payload) = handle_request(db, cmd);
            let reply = res.encode();
            proof {
                let (receiver, after) = match cmd {
                    ClientCommand::RequestUpdate(receiver, after) => (receiver, after),
                };
                assert(spec_reply(*db, receiver, after, res, spec_opt_bytes(payload)));
            }
            Ok((reply, payload))
        },
    }
}

} // verus!
