//! The whole delivery path end to end, over real wire bytes: repository,
//! session handler, codec, fetch session, cache, display scheduler.
use rpi_messages::consts::{IMAGE_BUFFER_SIZE, IMAGE_HEIGHT, IMAGE_WIDTH};
use rpi_messages::device_handler::handle_request_frame;
use rpi_messages::fetch::{FetchEvent, FetchIo, FetchSession};
use rpi_messages::message::{InsertMessage, MessageContent, MessageMeta, SenderID};
use rpi_messages::message_db::MemoryDb;
use rpi_messages::messagebuf::{DisplayMessageData, Messages};
use rpi_messages::protocol::{ClientCommand, RequestUpdateResult, Update, UpdateKind};
use rpi_messages::scheduler::{next_render, RenderChoice};
use rpi_messages::types::{DeviceID, MessageID};

const DEV_A: DeviceID = DeviceID(0xa);

fn backend_with_two_messages() -> MemoryDb {
    let mut db = MemoryDb::new();
    let meta = MessageMeta { receiver_id: DEV_A, duration_secs: 3600 };
    db.add_message(InsertMessage::new(
        meta,
        SenderID::Web,
        1,
        MessageContent::new_text("Hi").unwrap(),
    ));
    let rgba = vec![0u8; IMAGE_WIDTH * IMAGE_HEIGHT * 4];
    db.add_message(InsertMessage::new(
        meta,
        SenderID::Web,
        2,
        MessageContent::new_image(Vec::new(), &rgba).unwrap(),
    ));
    db
}

/// Feeds one poll through the backend: the device's command is encoded,
/// handled against the repository, and the reply decoded again.
fn poll(db: &MemoryDb, after: Option<MessageID>) -> (RequestUpdateResult, Option<Vec<u8>>) {
    let frame = ClientCommand::RequestUpdate(DEV_A, after).encode();
    let (reply_bytes, payload) = handle_request_frame(db, &frame).unwrap();
    let reply = RequestUpdateResult::decode(&reply_bytes).unwrap();
    (reply, payload)
}

#[test]
fn device_polls_consume_the_backlog_in_order() {
    let db = backend_with_two_messages();

    // First poll, no cursor: the text message, then its 2 payload bytes.
    let (reply, payload) = poll(&db, None);
    assert_eq!(
        reply,
        RequestUpdateResult::Update(Update {
            lifetime_sec: 3600,
            id: MessageID(0),
            kind: UpdateKind::Text(2),
        })
    );
    assert_eq!(payload.unwrap(), b"Hi".to_vec());

    // Second poll, after id 0: the image, then the full raw buffer.
    let (reply, payload) = poll(&db, Some(MessageID(0)));
    assert_eq!(
        reply,
        RequestUpdateResult::Update(Update {
            lifetime_sec: 3600,
            id: MessageID(1),
            kind: UpdateKind::Image,
        })
    );
    assert_eq!(payload.unwrap().len(), IMAGE_BUFFER_SIZE);

    // Third poll, after id 1: nothing pending.
    let (reply, payload) = poll(&db, Some(MessageID(1)));
    assert_eq!(reply, RequestUpdateResult::NoUpdate);
    assert!(payload.is_none());
}

#[test]
fn fetched_messages_reach_the_display_rotation() {
    let db = backend_with_two_messages();
    let mut cache = Messages::new();
    let mut session = FetchSession::new(DEV_A);
    let mut now = 100u64;

    // Run the device's fetch cycle against the backend until it sleeps.
    session.step(&mut cache, now, FetchEvent::TimerElapsed);
    let mut action = session.step(&mut cache, now, FetchEvent::Connected);
    loop {
        now += 1;
        action = match action.io {
            FetchIo::Send(cmd) => {
                let frame = cmd.encode();
                let (reply_bytes, payload) = handle_request_frame(&db, &frame).unwrap();
                let reply = RequestUpdateResult::decode(&reply_bytes).unwrap();
                let a = session.step(&mut cache, now, FetchEvent::Reply(Ok(reply)));
                match a.io {
                    FetchIo::ReadPayload(n) => {
                        let bytes = payload.unwrap();
                        assert_eq!(bytes.len(), n);
                        session.step(&mut cache, now, FetchEvent::Payload(Ok(bytes)))
                    }
                    other => {
                        assert!(matches!(other, FetchIo::CloseAndSleep(_)));
                        break;
                    }
                }
            }
            other => panic!("unexpected action {:?}", other),
        };
    }
    assert_eq!(session.last_seen_id, Some(MessageID(1)));

    // The display rotation now shows the text, then the image.
    let shown = next_render(None, &cache, 0, now);
    let first_time = match shown {
        RenderChoice::Normal(d) => {
            match d.data {
                DisplayMessageData::Text(t) => assert_eq!(t.text, "Hi"),
                DisplayMessageData::Image(_) => panic!("expected the text first"),
            }
            d.meta.updated_at
        }
        other => panic!("unexpected render {:?}", other),
    };
    match next_render(None, &cache, first_time, now) {
        RenderChoice::Normal(d) => match d.data {
            DisplayMessageData::Image(img) => assert_eq!(img.image.len(), IMAGE_BUFFER_SIZE),
            DisplayMessageData::Text(_) => panic!("expected the image second"),
        },
        other => panic!("unexpected render {:?}", other),
    }
}
