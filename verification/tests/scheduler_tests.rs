use rpi_messages::messagebuf::{DisplayMessageData, Messages, TextData};
use rpi_messages::protocol::{Update, UpdateKind};
use rpi_messages::scheduler::{next_render, RenderChoice};
use rpi_messages::signal::PrioritySignal;
use rpi_messages::types::MessageID;

fn text_data(s: &str) -> TextData {
    TextData { text: s.to_string() }
}

#[test]
fn priority_notification_preempts_the_rotation() {
    let mut cache = Messages::new();
    cache.store_text(
        &Update { lifetime_sec: 1000, id: MessageID(0), kind: UpdateKind::Text(4) },
        text_data("news"),
        10,
    );
    // With a pending notification, the next render is the priority
    // content, not the rotation result.
    let mut signal = PrioritySignal::new();
    signal.signal(text_data("something broke"));
    let prio = signal.try_take();
    match next_render(prio, &cache, 0, 20) {
        RenderChoice::Priority(t) => assert_eq!(t.text, "something broke"),
        _ => panic!("expected the priority content"),
    }
    // With the notification consumed, the rotation resumes.
    match next_render(signal.try_take(), &cache, 0, 20) {
        RenderChoice::Normal(d) => match d.data {
            DisplayMessageData::Text(t) => assert_eq!(t.text, "news"),
            DisplayMessageData::Image(_) => panic!("expected text"),
        },
        _ => panic!("expected the rotation result"),
    }
}

#[test]
fn a_second_notification_replaces_the_first() {
    let mut signal = PrioritySignal::new();
    signal.signal(text_data("first"));
    signal.signal(text_data("second"));
    // Latest wins: only the second can ever be shown.
    let taken = signal.try_take().unwrap();
    assert_eq!(taken.text, "second");
    // The mailbox is a single slot, not a queue.
    assert!(signal.try_take().is_none());
}

#[test]
fn empty_cache_renders_the_placeholder() {
    let cache = Messages::new();
    assert!(matches!(next_render(None, &cache, 0, 100), RenderChoice::Placeholder));
}
