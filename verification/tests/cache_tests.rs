use rpi_messages::messagebuf::{
    DisplayMessageData, ImageData, Messages, TextData, IMAGE_MESSAGE_NUM, TEXT_MESSAGE_NUM,
};
use rpi_messages::protocol::{Update, UpdateKind};
use rpi_messages::types::MessageID;

fn text_update(id: u32, lifetime: u32) -> Update {
    Update { lifetime_sec: lifetime, id: MessageID(id), kind: UpdateKind::Text(2) }
}

fn text_data(s: &str) -> TextData {
    TextData { text: s.to_string() }
}

#[test]
fn fresh_cache_shows_nothing() {
    let cache = Messages::new();
    assert!(cache.next_display_message_generic(0, 0).is_none());
    assert!(cache.next_display_message_generic(0, u64::MAX).is_none());
}

#[test]
fn writes_fill_inactive_slots_lowest_index_first() {
    let mut cache = Messages::new();
    for k in 0..TEXT_MESSAGE_NUM {
        let i = cache.store_text(&text_update(k as u32, 1000), text_data("x"), k as u64 + 1);
        assert_eq!(i, k);
    }
    for k in 0..IMAGE_MESSAGE_NUM {
        let i = cache.store_image(
            &Update { lifetime_sec: 1000, id: MessageID(50), kind: UpdateKind::Image },
            ImageData::new(),
            k as u64 + 1,
        );
        assert_eq!(i, k);
    }
}

#[test]
fn eviction_overwrites_exactly_the_oldest_active_slot() {
    let mut cache = Messages::new();
    // Fill every text slot; all stay active long past the writes.
    for k in 0..TEXT_MESSAGE_NUM {
        cache.store_text(&text_update(k as u32, 1_000_000), text_data("x"), k as u64 + 1);
    }
    // The next write, with every slot active, must evict the slot with
    // the smallest updated_at: the one written at time 1, at index 0.
    let evicted = cache.store_text(&text_update(99, 1_000_000), text_data("new"), 50);
    assert_eq!(evicted, 0);
    // And once more: now the oldest is the slot written at time 2.
    let evicted = cache.store_text(&text_update(100, 1_000_000), text_data("newer"), 51);
    assert_eq!(evicted, 1);
}

#[test]
fn expired_slot_is_eligible_for_immediate_overwrite() {
    let mut cache = Messages::new();
    for k in 0..TEXT_MESSAGE_NUM {
        // Slot k written at time k+1 with lifetime 30: slot 0 expires at
        // 31, slot 1 at 32, and so on.
        cache.store_text(&text_update(k as u32, 30), text_data("x"), k as u64 + 1);
    }
    // At time 33 the slots written at times 1 and 2 are expired; the
    // write must choose the lowest-indexed inactive slot: 0.
    let i = cache.store_text(&text_update(60, 1000), text_data("fresh"), 33);
    assert_eq!(i, 0);
    // Slot 1 is now the lowest-indexed expired slot.
    let i = cache.store_text(&text_update(61, 1000), text_data("fresh"), 33);
    assert_eq!(i, 1);
}

#[test]
fn next_available_clears_the_chosen_slot() {
    let mut cache = Messages::new();
    cache.store_text(&text_update(0, 5), text_data("old words"), 10);
    // At time 20 that slot has expired, so it is selected again — with
    // its content cleared and its metadata left until the payload lands.
    let i = cache.next_available_text(20);
    assert_eq!(i, 0);
    assert_eq!(cache.texts[0].data.text, "");
    assert_eq!(cache.texts[0].meta.updated_at, 10);

    let j = cache.next_available_image(20);
    assert_eq!(j, 0);
    assert!(cache.images[0].data.image.iter().all(|&b| b == 0));
}

#[test]
fn rotation_visits_each_active_slot_once_in_order_then_wraps() {
    let mut cache = Messages::new();
    // Three active text slots with distinct update times.
    cache.store_text(&text_update(0, 1000), text_data("first"), 10);
    cache.store_text(&text_update(1, 1000), text_data("second"), 20);
    cache.store_text(&text_update(2, 1000), text_data("third"), 30);
    let now = 40;

    let mut last_shown = 0u64;
    let mut seen = Vec::new();
    for _ in 0..3 {
        let d = cache.next_display_message_generic(last_shown, now).unwrap();
        last_shown = d.meta.updated_at;
        match d.data {
            DisplayMessageData::Text(t) => seen.push((d.meta.updated_at, t.text)),
            DisplayMessageData::Image(_) => panic!("expected text"),
        }
    }
    assert_eq!(
        seen,
        vec![
            (10, "first".to_string()),
            (20, "second".to_string()),
            (30, "third".to_string()),
        ]
    );
    // The rotation has reached the newest item: it wraps to the oldest.
    let d = cache.next_display_message_generic(last_shown, now).unwrap();
    assert_eq!(d.meta.updated_at, 10);
}

#[test]
fn rotation_spans_text_and_image_slots() {
    let mut cache = Messages::new();
    cache.store_text(&text_update(0, 1000), text_data("words"), 10);
    cache.store_image(
        &Update { lifetime_sec: 1000, id: MessageID(1), kind: UpdateKind::Image },
        ImageData::new(),
        20,
    );
    let now = 25;
    let d = cache.next_display_message_generic(0, now).unwrap();
    assert!(matches!(d.data, DisplayMessageData::Text(_)));
    let d = cache.next_display_message_generic(d.meta.updated_at, now).unwrap();
    assert!(matches!(d.data, DisplayMessageData::Image(_)));
}

#[test]
fn expired_slots_are_never_displayed() {
    let mut cache = Messages::new();
    // Written at 10, lifetime 5: expired once now >= 15.
    cache.store_text(&text_update(0, 5), text_data("dead"), 10);
    // Written at 12, lifetime 100: active until 112.
    cache.store_text(&text_update(1, 100), text_data("alive"), 12);

    let d = cache.next_display_message_generic(0, 20).unwrap();
    assert_eq!(d.meta.updated_at, 12);
    // Chaining from the live slot wraps back to it, never to the dead one.
    let d = cache.next_display_message_generic(12, 20).unwrap();
    assert_eq!(d.meta.updated_at, 12);
    // Once everything expired, there is nothing to show.
    assert!(cache.next_display_message_generic(0, 200).is_none());
}

#[test]
fn boundary_of_activity_is_exclusive() {
    let mut cache = Messages::new();
    // updated_at 10 + lifetime 5 = 15: active at 14, expired at 15.
    cache.store_text(&text_update(0, 5), text_data("edge"), 10);
    assert!(cache.next_display_message_generic(0, 14).is_some());
    assert!(cache.next_display_message_generic(0, 15).is_none());
}
