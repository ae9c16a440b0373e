use rpi_messages::error::{ServerMessageError, SoftError};
use rpi_messages::fetch::{
    FetchEvent, FetchIo, FetchSession, FetchState, MESSAGE_FETCH_INTERVAL_SECS,
    SERVER_CONNECT_ERROR_WAIT_SECS,
};
use rpi_messages::messagebuf::{DisplayMessageData, Messages};
use rpi_messages::protocol::{ClientCommand, Error, RequestUpdateResult, Update, UpdateKind};
use rpi_messages::types::{DeviceID, MessageID};

const DEV: DeviceID = DeviceID(0xcafebabe);

fn text_reply(id: u32, len: u8) -> RequestUpdateResult {
    RequestUpdateResult::Update(Update {
        lifetime_sec: 3600,
        id: MessageID(id),
        kind: UpdateKind::Text(len),
    })
}

#[test]
fn successful_cycle_fetches_and_stores_a_text_message() {
    let mut cache = Messages::new();
    let mut session = FetchSession::new(DEV);
    assert_eq!(session.state, FetchState::Disconnected);
    assert_eq!(session.last_seen_id, None);

    let a = session.step(&mut cache, 100, FetchEvent::TimerElapsed);
    assert!(matches!(a.io, FetchIo::Connect));
    assert_eq!(session.state, FetchState::Connecting);

    let a = session.step(&mut cache, 100, FetchEvent::Connected);
    match a.io {
        FetchIo::Send(cmd) => assert_eq!(cmd, ClientCommand::RequestUpdate(DEV, None)),
        _ => panic!("expected a poll request"),
    }
    assert_eq!(session.state, FetchState::Polling);

    let a = session.step(&mut cache, 100, FetchEvent::Reply(Ok(text_reply(5, 2))));
    assert!(matches!(a.io, FetchIo::ReadPayload(2)));

    let a = session.step(&mut cache, 101, FetchEvent::Payload(Ok(b"Hi".to_vec())));
    match a.io {
        FetchIo::Send(cmd) => {
            // The next poll carries the advanced cursor.
            assert_eq!(cmd, ClientCommand::RequestUpdate(DEV, Some(MessageID(5))));
        }
        _ => panic!("expected the next poll request"),
    }
    assert_eq!(session.last_seen_id, Some(MessageID(5)));
    assert_eq!(session.state, FetchState::Polling);

    // The payload landed in the cache with the update's metadata.
    let shown = cache.next_display_message_generic(0, 101).unwrap();
    assert_eq!(shown.meta.updated_at, 101);
    assert_eq!(shown.meta.lifetime, 3600);
    match shown.data {
        DisplayMessageData::Text(t) => assert_eq!(t.text, "Hi"),
        DisplayMessageData::Image(_) => panic!("expected text"),
    }

    // Nothing more pending: close and sleep out the fetch interval.
    let a = session.step(&mut cache, 102, FetchEvent::Reply(Ok(RequestUpdateResult::NoUpdate)));
    assert!(matches!(a.io, FetchIo::CloseAndSleep(MESSAGE_FETCH_INTERVAL_SECS)));
    assert!(a.report.is_none());
    assert_eq!(session.state, FetchState::Idle);
}

#[test]
fn connect_failure_reports_and_backs_off() {
    let mut cache = Messages::new();
    let mut session = FetchSession::new(DEV);
    session.step(&mut cache, 0, FetchEvent::TimerElapsed);
    let a = session.step(&mut cache, 0, FetchEvent::ConnectFailed);
    assert_eq!(a.report, Some(SoftError::ServerConnect));
    assert!(matches!(a.io, FetchIo::Sleep(SERVER_CONNECT_ERROR_WAIT_SECS)));
    assert_eq!(session.state, FetchState::Idle);
    // The cycle restarts from the top after the sleep.
    let a = session.step(&mut cache, 3, FetchEvent::TimerElapsed);
    assert!(matches!(a.io, FetchIo::Connect));
}

#[test]
fn transport_error_keeps_the_cursor() {
    let mut cache = Messages::new();
    let mut session = FetchSession::new(DEV);
    session.step(&mut cache, 0, FetchEvent::TimerElapsed);
    session.step(&mut cache, 0, FetchEvent::Connected);
    session.step(&mut cache, 0, FetchEvent::Reply(Ok(text_reply(9, 2))));
    session.step(&mut cache, 1, FetchEvent::Payload(Ok(b"ok".to_vec())));
    assert_eq!(session.last_seen_id, Some(MessageID(9)));

    // The next reply fails at the transport; the error is surfaced and
    // the cursor survives the teardown.
    let a = session.step(&mut cache, 2, FetchEvent::Reply(Err(Error::Socket)));
    assert_eq!(
        a.report,
        Some(SoftError::ServerMessage(ServerMessageError::Protocol(Error::Socket)))
    );
    assert!(matches!(a.io, FetchIo::CloseAndSleep(MESSAGE_FETCH_INTERVAL_SECS)));
    assert_eq!(session.last_seen_id, Some(MessageID(9)));

    // After the backoff, the poll resumes from the same cursor.
    session.step(&mut cache, 70, FetchEvent::TimerElapsed);
    let a = session.step(&mut cache, 70, FetchEvent::Connected);
    match a.io {
        FetchIo::Send(cmd) => {
            assert_eq!(cmd, ClientCommand::RequestUpdate(DEV, Some(MessageID(9))));
        }
        _ => panic!("expected a poll request"),
    }
}

#[test]
fn oversized_text_length_is_rejected_before_any_read() {
    let mut cache = Messages::new();
    let mut session = FetchSession::new(DEV);
    session.step(&mut cache, 0, FetchEvent::TimerElapsed);
    session.step(&mut cache, 0, FetchEvent::Connected);
    let a = session.step(&mut cache, 0, FetchEvent::Reply(Ok(text_reply(1, 200))));
    assert_eq!(
        a.report,
        Some(SoftError::ServerMessage(ServerMessageError::Protocol(Error::Length {
            val: 200,
            max: 136,
        })))
    );
    assert!(matches!(a.io, FetchIo::CloseAndSleep(_)));
    assert_eq!(session.state, FetchState::Idle);
    assert_eq!(session.last_seen_id, None);
}

#[test]
fn invalid_utf8_payload_is_rejected_and_not_stored() {
    let mut cache = Messages::new();
    let mut session = FetchSession::new(DEV);
    session.step(&mut cache, 0, FetchEvent::TimerElapsed);
    session.step(&mut cache, 0, FetchEvent::Connected);
    session.step(&mut cache, 0, FetchEvent::Reply(Ok(text_reply(1, 2))));
    let a = session.step(&mut cache, 1, FetchEvent::Payload(Ok(vec![0xff, 0xfe])));
    assert_eq!(a.report, Some(SoftError::ServerMessage(ServerMessageError::Encoding)));
    assert_eq!(session.last_seen_id, None);
    assert!(cache.next_display_message_generic(0, 1).is_none());
}

#[test]
fn cursor_only_moves_forward() {
    let mut cache = Messages::new();
    let mut session = FetchSession::new(DEV);
    session.step(&mut cache, 0, FetchEvent::TimerElapsed);
    session.step(&mut cache, 0, FetchEvent::Connected);
    session.step(&mut cache, 0, FetchEvent::Reply(Ok(text_reply(9, 2))));
    session.step(&mut cache, 1, FetchEvent::Payload(Ok(b"aa".to_vec())));
    assert_eq!(session.last_seen_id, Some(MessageID(9)));
    // An older id delivered again (at-least-once) does not move the
    // cursor back.
    session.step(&mut cache, 2, FetchEvent::Reply(Ok(text_reply(4, 2))));
    session.step(&mut cache, 3, FetchEvent::Payload(Ok(b"bb".to_vec())));
    assert_eq!(session.last_seen_id, Some(MessageID(9)));
}

#[test]
fn text_payload_of_the_full_buffer_size_is_accepted() {
    let mut cache = Messages::new();
    let mut session = FetchSession::new(DEV);
    session.step(&mut cache, 0, FetchEvent::TimerElapsed);
    session.step(&mut cache, 0, FetchEvent::Connected);
    let a = session.step(&mut cache, 0, FetchEvent::Reply(Ok(text_reply(1, 136))));
    assert!(matches!(a.io, FetchIo::ReadPayload(136)));
    let payload = vec![b'z'; 136];
    let a = session.step(&mut cache, 1, FetchEvent::Payload(Ok(payload)));
    assert!(a.report.is_none());
    let shown = cache.next_display_message_generic(0, 2).unwrap();
    match shown.data {
        DisplayMessageData::Text(t) => assert_eq!(t.text, "z".repeat(136)),
        DisplayMessageData::Image(_) => panic!("expected text"),
    }
}

#[test]
fn image_payload_is_stored_whole() {
    let mut cache = Messages::new();
    let mut session = FetchSession::new(DEV);
    session.step(&mut cache, 0, FetchEvent::TimerElapsed);
    session.step(&mut cache, 0, FetchEvent::Connected);
    let reply = RequestUpdateResult::Update(Update {
        lifetime_sec: 60,
        id: MessageID(3),
        kind: UpdateKind::Image,
    });
    let a = session.step(&mut cache, 0, FetchEvent::Reply(Ok(reply)));
    assert!(matches!(a.io, FetchIo::ReadPayload(40960)));
    let payload = vec![0x5au8; 40960];
    session.step(&mut cache, 7, FetchEvent::Payload(Ok(payload.clone())));
    let shown = cache.next_display_message_generic(0, 8).unwrap();
    match shown.data {
        DisplayMessageData::Image(img) => assert_eq!(img.image, payload),
        DisplayMessageData::Text(_) => panic!("expected an image"),
    }
}
