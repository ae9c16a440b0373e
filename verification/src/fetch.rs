//! The fetch session: a state machine driving one poll cycle over one
//! TCP connection.
//!
//! The machine decides; the surrounding runtime performs. Each call to
//! [`FetchSession::step`] consumes one event (a timer, a connect result,
//! a decoded reply, a payload read) and returns the next action to
//! perform (connect, send a request, read so many payload bytes, close
//! and sleep), possibly together with a soft error to surface as a
//! priority notification. Any transport or protocol failure tears the
//! cycle down to `Idle` with a backoff; the cursor `last_seen_id`
//! survives every reconnect, which gives at-least-once delivery.
use vstd::prelude::*;
use vstd::string::StringSliceAdditionalSpecFns;

use crate::consts::TEXT_BUFFER_SIZE;
use crate::error::{ServerMessageError, SoftError};
use crate::messagebuf::{is_write_slot, ImageData, MessageMeta, Messages, TextData};
use crate::protocol::{ClientCommand, Error, RequestUpdateResult, Update, UpdateKind};
use crate::types::{DeviceID, MessageID};

verus! {

/// Seconds to sleep after a failed connection attempt.
pub const SERVER_CONNECT_ERROR_WAIT_SECS: u64 = 2;

/// Seconds between poll cycles.
pub const MESSAGE_FETCH_INTERVAL_SECS: u64 = 60;

/// Where the session stands in its cycle.
#[derive(Debug, Clone, Copy, PartialEq, Eq, Structural)]
pub enum FetchState {
    /// Between cycles; the next timer starts a new connection.
    Disconnected,
    /// A connection attempt is in flight.
    Connecting,
    /// A poll request has been sent; a reply is awaited.
    Polling,
    /// A reply announced this update; its payload bytes are being read.
    FetchingPayload(Update),
    /// Sleeping out a backoff or the fetch interval.
    Idle,
}

/// What the runtime observed since the last step.
#[derive(Debug)]
pub enum FetchEvent {
    /// The current sleep or startup delay ran out.
    TimerElapsed,
    /// The connection attempt succeeded.
    Connected,
    /// The connection attempt failed.
    ConnectFailed,
    /// Sending the request and reading the reply finished with this
    /// decoded result.
    Reply(Result<RequestUpdateResult, Error>),
    /// Reading the announced payload finished with these bytes.
    Payload(Result<Vec<u8>, Error>),
}

/// What the runtime must do next.
#[derive(Debug)]
pub enum FetchIo {
    /// Open a TCP connection to the configured endpoint.
    Connect,
    /// Send this command, then read one reply frame.
    Send(ClientCommand),
    /// Read exactly this many raw payload bytes from the stream.
    ReadPayload(usize),
    /// Close the connection, then sleep this many seconds.
    CloseAndSleep(u64),
    /// Sleep this many seconds; no connection is open.
    Sleep(u64),
    /// Nothing; step again with the next event.
    Nothing,
}

/// One step's outcome: an error to surface, if any, and the next I/O.
#[derive(Debug)]
pub struct FetchAction {
    pub report: Option<SoftError>,
    pub io: FetchIo,
}

/// `b` is at least as far along the delivery sequence as `a`: the cursor
/// never moves backwards and is never dropped.
pub open spec fn cursor_leq(a: Option<MessageID>, b: Option<MessageID>) -> bool {
    match a {
        None => true,
        Some(x) => b matches Some(y) && x.0 <= y.0,
    }
}

/// The fetch session: its state, the device it polls for, and the cursor
/// (highest message id already consumed).
pub struct FetchSession {
    pub device_id: DeviceID,
    pub state: FetchState,
    pub last_seen_id: Option<MessageID>,
}

impl FetchSession {
    /// A payload is only ever read for an update whose announced length
    /// was validated against the text buffer capacity.
    pub open spec fn wf(self) -> bool {
        self.state matches FetchState::FetchingPayload(u) ==> u.kind.spec_valid()
    }

    /// A fresh session: disconnected, no message consumed yet.
    pub fn new(device_id: DeviceID) -> (r: Self)
        ensures
            r.wf(),
            r.device_id == device_id,
            r.state matches FetchState::Disconnected,
            r.last_seen_id matches None,
    {
        FetchSession { device_id, state: FetchState::Disconnected, last_seen_id: None }
    }

    /// Drives the session by one event. The contract walks the machine:
    /// timers start a connection, a successful connect sends the poll
    /// request with the current cursor, a valid update is followed by a
    /// payload read, a received payload is stored in the cache through
    /// the write path and advances the cursor, and every failure reports
    /// a soft error and backs off to `Idle` — with the cursor intact.
    pub fn step(&mut self, messages: &mut Messages, now: u64, event: FetchEvent) -> (a:
        FetchAction)
        requires
            old(self).wf(),
            old(messages).wf(),
        ensures
            final(self).wf(),
            final(messages).wf(),
            final(self).device_id == old(self).device_id,
            cursor_leq(old(self).last_seen_id, final(self).last_seen_id),
            match old(self).state {
                FetchState::Disconnected | FetchState::Idle => match event {
                    FetchEvent::TimerElapsed => {
                        &&& final(self).state matches FetchState::Connecting
                        &&& final(self).last_seen_id == old(self).last_seen_id
                        &&& *final(messages) == *old(messages)
                        &&& a.report matches None
                        &&& a.io matches FetchIo::Connect
                    },
                    _ => final(self).step_stutters(*old(self), *old(messages), *final(messages), a),
                },
                FetchState::Connecting => match event {
                    FetchEvent::Connected => {
                        &&& final(self).state matches FetchState::Polling
                        &&& final(self).last_seen_id == old(self).last_seen_id
                        &&& *final(messages) == *old(messages)
                        &&& a.report matches None
                        &&& a.io matches FetchIo::Send(cmd) && cmd
                            == ClientCommand::RequestUpdate(
                            old(self).device_id,
                            old(self).last_seen_id,
                        )
                    },
                    FetchEvent::ConnectFailed => {
                        &&& final(self).state matches FetchState::Idle
                        &&& final(self).last_seen_id == old(self).last_seen_id
                        &&& *final(messages) == *old(messages)
                        &&& a.report matches Some(e) && e == SoftError::ServerConnect
                        &&& a.io matches FetchIo::Sleep(s) && s == SERVER_CONNECT_ERROR_WAIT_SECS
                    },
                    _ => final(self).step_stutters(*old(self), *old(messages), *final(messages), a),
                },
                FetchState::Polling => match event {
                    FetchEvent::Reply(reply) => match reply {
                        Err(e) => final(self).step_fails(
                            *old(self),
                            *old(messages),
                            *final(messages),
                            a,
                            SoftError::ServerMessage(ServerMessageError::Protocol(e)),
                        ),
                        Ok(RequestUpdateResult::NoUpdate) => {
                            &&& final(self).state matches FetchState::Idle
                            &&& final(self).last_seen_id == old(self).last_seen_id
                            &&& *final(messages) == *old(messages)
                            &&& a.report matches None
                            &&& a.io matches FetchIo::CloseAndSleep(s) && s
                                == MESSAGE_FETCH_INTERVAL_SECS
                        },
                        Ok(RequestUpdateResult::Update(u)) => if u.kind.spec_valid() {
                            &&& final(self).state matches FetchState::FetchingPayload(v) && v == u
                            &&& final(self).last_seen_id == old(self).last_seen_id
                            &&& *final(messages) == *old(messages)
                            &&& a.report matches None
                            &&& a.io matches FetchIo::ReadPayload(n) && n == u.kind.spec_size()
                        } else {
                            final(self).step_fails(
                                *old(self),
                                *old(messages),
                                *final(messages),
                                a,
                                SoftError::ServerMessage(
                                    ServerMessageError::Protocol(
                                        Error::Length {
                                            val: u.kind.spec_size(),
                                            max: TEXT_BUFFER_SIZE,
                                        },
                                    ),
                                ),
                            )
                        },
                    },
                    _ => final(self).step_stutters(*old(self), *old(messages), *final(messages), a),
                },
                FetchState::FetchingPayload(u) => match event {
                    FetchEvent::Payload(payload) => match payload {
                        Err(e) => final(self).step_fails(
                            *old(self),
                            *old(messages),
                            *final(messages),
                            a,
                            SoftError::ServerMessage(ServerMessageError::Protocol(e)),
                        ),
                        Ok(bytes) => if bytes@.len() != u.kind.spec_size() {
                            final(self).step_fails(
                                *old(self),
                                *old(messages),
                                *final(messages),
                                a,
                                SoftError::Socket,
                            )
                        } else {
                            match u.kind {
                                UpdateKind::Text(_) => if vstd::utf8::valid_utf8(
                                    bytes@,
                                ) {
                                    final(self).step_stores_text(*old(self), *old(messages), *final(messages), a, u, bytes@, now)
                                } else {
                                    final(self).step_fails(
                                        *old(self),
                                        *old(messages),
                                        *final(messages),
                                        a,
                                        SoftError::ServerMessage(ServerMessageError::Encoding),
                                    )
                                },
                                UpdateKind::Image => final(self).step_stores_image(
                                    *old(self),
                                    *old(messages),
                                    *final(messages),
                                    a,
                                    u,
                                    bytes@,
                                    now,
                                ),
                            }
                        },
                    },
                    _ => final(self).step_stutters(*old(self), *old(messages), *final(messages), a),
                },
            },
    {
        let st = self.state;
        match st {
            FetchState::Disconnected | FetchState::Idle => match event {
                FetchEvent::TimerElapsed => {
                    self.state = FetchState::Connecting;
                    FetchAction { report: None, io: FetchIo::Connect }
                },
                _ => FetchAction { report: None, io: FetchIo::Nothing },
            },
            FetchState::Connecting => match event {
                FetchEvent::Connected => {
                    self.state = FetchState::Polling;
                    FetchAction {
                        report: None,
                        io: FetchIo::Send(
                            ClientCommand::RequestUpdate(self.device_id, self.last_seen_id),
                        ),
                    }
                },
                FetchEvent::ConnectFailed => {
                    self.state = FetchState::Idle;
                    FetchAction {
                        report: Some(SoftError::ServerConnect),
                        io: FetchIo::Sleep(SERVER_CONNECT_ERROR_WAIT_SECS),
                    }
                },
                _ => FetchAction { report: None, io: FetchIo::Nothing },
            },
            FetchState::Polling => match event {
                FetchEvent::Reply(reply) => match reply {
                    Err(e) => self.fail(SoftError::ServerMessage(ServerMessageError::Protocol(e))),
                    Ok(RequestUpdateResult::NoUpdate) => {
                        self.state = FetchState::Idle;
                        FetchAction {
                            report: None,
                            io: FetchIo::CloseAndSleep(MESSAGE_FETCH_INTERVAL_SECS),
                        }
                    },
                    Ok(RequestUpdateResult::Update(u)) => if u.kind.is_valid() {
                        let size = u.kind.size();
                        self.state = FetchState::FetchingPayload(u);
                        FetchAction { report: None, io: FetchIo::ReadPayload(size) }
                    } else {
                        let size = u.kind.size();
                        self.fail(
                            SoftError::ServerMessage(
                                ServerMessageError::Protocol(
                                    Error::Length {
                                        val: size,
                                        max: TEXT_BUFFER_SIZE,
                                    },
                                ),
                            ),
                        )
                    },
                },
                _ => FetchAction { report: None, io: FetchIo::Nothing },
            },
            FetchState::FetchingPayload(u) => match event {
                FetchEvent::Payload(payload) => match payload {
                    Err(e) => self.fail(SoftError::ServerMessage(ServerMessageError::Protocol(e))),
                    Ok(bytes) => {
                        let size = u.kind.size();
                        if bytes.len() != size {
                            self.fail(SoftError::Socket)
                        } else {
                            match u.kind {
                                UpdateKind::Text(_) => match utf8_from_bytes(
                                    bytes.as_slice(),
                                ) {
                                    Some(s) => {
                                        let data = TextData { text: s.to_owned() };
                                        messages.store_text(&u, data, now);
                                        self.advance_cursor(u.id);
                                        self.state = FetchState::Polling;
                                        FetchAction {
                                            report: None,
                                            io: FetchIo::Send(
                                                ClientCommand::RequestUpdate(
                                                    self.device_id,
                                                    self.last_seen_id,
                                                ),
                                            ),
                                        }
                                    },
                                    None => self.fail(
                                        SoftError::ServerMessage(ServerMessageError::Encoding),
                                    ),
                                },
                                UpdateKind::Image => {
                                    let data = ImageData { image: bytes };
                                    messages.store_image(&u, data, now);
                                    self.advance_cursor(u.id);
                                    self.state = FetchState::Polling;
                                    FetchAction {
                                        report: None,
                                        io: FetchIo::Send(
                                            ClientCommand::RequestUpdate(
                                                self.device_id,
                                                self.last_seen_id,
                                            ),
                                        ),
                                    }
                                },
                            }
                        }
                    },
                },
                _ => FetchAction { report: None, io: FetchIo::Nothing },
            },
        }
    }

    /// An event that does not belong to the current state changes
    /// nothing and asks for nothing.
    pub open spec fn step_stutters(
        self,
        pre: FetchSession,
        old_m: Messages,
        new_m: Messages,
        a: FetchAction,
    ) -> bool {
        &&& self == pre
        &&& new_m == old_m
        &&& a.report matches None
        &&& a.io matches FetchIo::Nothing
    }

    /// A failed cycle: the connection is torn down, the error surfaces
    /// as a priority message, the session sleeps out the fetch interval,
    /// and the cursor survives.
    pub open spec fn step_fails(
        self,
        pre: FetchSession,
        old_m: Messages,
        new_m: Messages,
        a: FetchAction,
        e: SoftError,
    ) -> bool {
        &&& self.state matches FetchState::Idle
        &&& self.last_seen_id == pre.last_seen_id
        &&& new_m == old_m
        &&& a.report matches Some(r) && r == e
        &&& a.io matches FetchIo::CloseAndSleep(s) && s == MESSAGE_FETCH_INTERVAL_SECS
    }

    /// A received text payload was stored: exactly the write-path slot of
    /// the text array was overwritten with the payload's characters and
    /// fresh metadata, the cursor advanced to at least the update's id,
    /// and the next poll request carries the new cursor.
    pub open spec fn step_stores_text(
        self,
        pre: FetchSession,
        old_m: Messages,
        new_m: Messages,
        a: FetchAction,
        u: Update,
        bytes: Seq<u8>,
        now: u64,
    ) -> bool {
        &&& self.state matches FetchState::Polling
        &&& cursor_leq(Some(u.id), self.last_seen_id)
        &&& exists|i: int| {
            &&& #[trigger] is_write_slot(old_m.texts@, i, now)
            &&& new_m.texts@ == old_m.texts@.update(i, new_m.texts@[i])
            &&& new_m.texts@[i].meta == (MessageMeta {
                lifetime: u.lifetime_sec as u64,
                updated_at: now,
            })
            &&& vstd::utf8::encode_utf8(new_m.texts@[i].data.text@) == bytes
        }
        &&& new_m.images@ == old_m.images@
        &&& a.report matches None
        &&& a.io matches FetchIo::Send(cmd) && cmd == ClientCommand::RequestUpdate(
            pre.device_id,
            self.last_seen_id,
        )
    }

    /// A received image payload was stored: exactly the write-path slot
    /// of the image array was overwritten with the payload bytes and
    /// fresh metadata, the cursor advanced to at least the update's id,
    /// and the next poll request carries the new cursor.
    pub open spec fn step_stores_image(
        self,
        pre: FetchSession,
        old_m: Messages,
        new_m: Messages,
        a: FetchAction,
        u: Update,
        bytes: Seq<u8>,
        now: u64,
    ) -> bool {
        &&& self.state matches FetchState::Polling
        &&& cursor_leq(Some(u.id), self.last_seen_id)
        &&& exists|i: int| {
            &&& #[trigger] is_write_slot(old_m.images@, i, now)
            &&& new_m.images@ == old_m.images@.update(i, new_m.images@[i])
            &&& new_m.images@[i].meta == (MessageMeta {
                lifetime: u.lifetime_sec as u64,
                updated_at: now,
            })
            &&& new_m.images@[i].data.image@ == bytes
        }
        &&& new_m.texts@ == old_m.texts@
        &&& a.report matches None
        &&& a.io matches FetchIo::Send(cmd) && cmd == ClientCommand::RequestUpdate(
            pre.device_id,
            self.last_seen_id,
        )
    }

    /// Tears the cycle down after a soft failure, keeping the cursor.
    fn fail(&mut self, e: SoftError) -> (a: FetchAction)
        ensures
            final(self).state matches FetchState::Idle,
            final(self).device_id == old(self).device_id,
            final(self).last_seen_id == old(self).last_seen_id,
            a.report matches Some(r) && r == e,
            a.io matches FetchIo::CloseAndSleep(s) && s == MESSAGE_FETCH_INTERVAL_SECS,
    {
        self.state = FetchState::Idle;
        FetchAction { report: Some(e), io: FetchIo::CloseAndSleep(MESSAGE_FETCH_INTERVAL_SECS) }
    }

    /// Moves the cursor forward to at least `id`; it never moves back.
    fn advance_cursor(&mut self, id: MessageID)
        ensures
            final(self).state == old(self).state,
            final(self).device_id == old(self).device_id,
            cursor_leq(old(self).last_seen_id, final(self).last_seen_id),
            cursor_leq(Some(id), final(self).last_seen_id),
    {
        self.last_seen_id = match self.last_seen_id {
            None => Some(id),
            Some(last) => if last.0 >= id.0 {
                Some(last)
            } else {
                Some(id)
            },
        };
    }
}

/// Relies on `core::str::from_utf8`: returns the string viewing exactly
/// the given bytes iff they are valid UTF-8.
#[verifier::external_body]
pub(crate) fn utf8_from_bytes(bytes: &[u8]) -> (r: Option<&str>)
    ensures
        match r {
            Some(s) => vstd::utf8::valid_utf8(bytes@) && s.spec_bytes() == bytes@,
            None => !vstd::utf8::valid_utf8(bytes@),
        },
{
    core::str::from_utf8(bytes).ok()
}

} // verus!
