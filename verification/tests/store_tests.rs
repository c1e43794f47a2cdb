use danmu_tools::json::JsonNumber;
use danmu_tools::models::{IncomingDanmuRaw, MessageType, UidValue};
use danmu_tools::store::MessageStore;

fn raw(content: &str, uid: u64, timestamp_ms: i64) -> IncomingDanmuRaw {
    IncomingDanmuRaw {
        content: content.to_string(),
        uid: UidValue::Number(JsonNumber::PosInt(uid)),
        nickname: "观众".to_string(),
        user_level: 12,
        fan_level: 8,
        guard_type: 0,
        message_type: MessageType::Danmu,
        super_chat: None,
        timestamp_ms: Some(timestamp_ms),
        timestamp: None,
    }
}

fn main_contents(store: &MessageStore) -> Vec<String> {
    store
        .snapshot()
        .main_visible
        .iter()
        .map(|message| message.content.clone())
        .collect()
}

fn person_contents(store: &MessageStore) -> Vec<String> {
    store
        .snapshot()
        .person_panel
        .visible_messages
        .iter()
        .map(|message| message.content.clone())
        .collect()
}

#[test]
fn main_viewport_does_not_auto_scroll_on_overflow() {
    let mut store = MessageStore::new(1000, 50);
    store.set_viewport_sizes(Some(5), None);
    for content in ["A", "B", "C", "D", "E", "F", "G"] {
        store.ingest(raw(content, 1, 1)).unwrap();
    }
    let snapshot = store.snapshot();
    let visible = snapshot
        .main_visible
        .iter()
        .map(|message| message.content.clone())
        .collect::<Vec<_>>();
    assert_eq!(visible, ["A", "B", "C", "D", "E"]);
}

#[test]
fn main_viewport_advances_only_after_top_messages_are_read() {
    let mut store = MessageStore::new(1000, 50);
    store.set_viewport_sizes(Some(5), None);
    for content in ["A", "B", "C", "D", "E", "F", "G"] {
        store.ingest(raw(content, 1, 1)).unwrap();
    }
    store.ack_message(2);
    assert_eq!(store.snapshot().main_visible[0].content, "A");
    store.ack_message(1);
    let snapshot = store.snapshot();
    let visible = snapshot
        .main_visible
        .iter()
        .map(|message| message.content.clone())
        .collect::<Vec<_>>();
    assert_eq!(visible, ["C", "D", "E", "F", "G"]);
}

#[test]
fn ack_user_messages_marks_all_cached_messages_from_that_uid() {
    let mut store = MessageStore::new(1000, 50);
    store.set_viewport_sizes(Some(5), None);
    store.ingest(raw("A", 1, 1)).unwrap();
    store.ingest(raw("B", 2, 2)).unwrap();
    store.ingest(raw("C", 1, 3)).unwrap();
    store.ingest(raw("D", 1, 4)).unwrap();
    store.ingest(raw("E", 2, 5)).unwrap();

    store.ack_user_messages("1");

    assert_eq!(
        store
            .snapshot()
            .main_visible
            .iter()
            .map(|message| format!("{}:{}", message.content, message.read))
            .collect::<Vec<_>>(),
        ["A:true", "B:false", "C:true", "D:true", "E:false"]
    );
}

#[test]
fn main_viewport_stays_full_when_acknowledgements_advance_near_the_end() {
    let mut store = MessageStore::new(1000, 50);
    store.set_viewport_sizes(Some(5), None);
    for content in ["A", "B", "C", "D", "E", "F", "G"] {
        store.ingest(raw(content, 1, 1)).unwrap();
    }

    store.ack_message(1);
    store.ack_message(2);
    store.ack_message(3);

    assert_eq!(main_contents(&store), ["C", "D", "E", "F", "G"]);
}

#[test]
fn main_viewport_scrolls_history_and_newer_without_auto_following() {
    let mut store = MessageStore::new(1000, 50);
    store.set_viewport_sizes(Some(5), None);
    for content in ["A", "B", "C", "D", "E", "F", "G", "H"] {
        store.ingest(raw(content, 1, 1)).unwrap();
    }

    store.scroll_main_viewport(2);
    assert_eq!(main_contents(&store), ["C", "D", "E", "F", "G"]);

    store.scroll_main_viewport(-1);
    assert_eq!(main_contents(&store), ["B", "C", "D", "E", "F"]);

    store.ingest(raw("I", 1, 1)).unwrap();
    assert_eq!(main_contents(&store), ["B", "C", "D", "E", "F"]);

    store.scroll_main_viewport(99);
    assert_eq!(main_contents(&store), ["E", "F", "G", "H", "I"]);
}

#[test]
fn main_viewport_keeps_bottom_pinned_when_new_message_arrives_at_bottom() {
    let mut store = MessageStore::new(1000, 50);
    store.set_viewport_sizes(Some(5), None);
    for content in ["A", "B", "C", "D", "E", "F", "G"] {
        store.ingest(raw(content, 1, 1)).unwrap();
    }

    store.scroll_main_viewport(99);
    assert_eq!(main_contents(&store), ["C", "D", "E", "F", "G"]);

    store.ingest(raw("H", 1, 1)).unwrap();
    assert_eq!(main_contents(&store), ["D", "E", "F", "G", "H"]);
}

#[test]
fn main_viewport_keeps_bottom_pinned_when_viewport_shrinks_at_bottom() {
    let mut store = MessageStore::new(1000, 50);
    store.set_viewport_sizes(Some(5), None);
    for content in ["A", "B", "C", "D", "E", "F", "G", "H", "I", "J"] {
        store.ingest(raw(content, 1, 1)).unwrap();
    }

    store.scroll_main_viewport(99);
    assert_eq!(main_contents(&store), ["F", "G", "H", "I", "J"]);

    store.set_viewport_sizes(Some(3), None);
    assert_eq!(main_contents(&store), ["H", "I", "J"]);
}

#[test]
fn person_anchor_stops_at_second_row_and_counts_hidden_newer() {
    let mut store = MessageStore::new(1000, 50);
    store.set_viewport_sizes(None, Some(5));
    for i in 1..=8 {
        store.ingest(raw(&format!("M{i}"), 42, i)).unwrap();
    }
    store.select_user_anchor(3);
    let panel = store.snapshot().person_panel;
    assert_eq!(panel.selected_nickname.as_deref(), Some("观众"));
    let visible = panel
        .visible_messages
        .iter()
        .map(|message| message.content.clone())
        .collect::<Vec<_>>();
    assert_eq!(visible, ["M2", "M3", "M4", "M5", "M6"]);
    assert_eq!(panel.hidden_newer_count, 2);
}

#[test]
fn person_anchor_stays_on_second_row_instead_of_bouncing_through_first_row() {
    let mut store = MessageStore::new(1000, 50);
    store.set_viewport_sizes(None, Some(5));
    for i in 1..=5 {
        store.ingest(raw(&format!("M{i}"), 42, i)).unwrap();
    }

    store.select_user_anchor(3);
    store.ingest(raw("M6", 42, 6)).unwrap();
    assert_eq!(person_contents(&store), ["M2", "M3", "M4", "M5", "M6"]);

    store.ingest(raw("M7", 42, 7)).unwrap();
    let panel = store.snapshot().person_panel;
    let visible = panel
        .visible_messages
        .iter()
        .map(|message| message.content.clone())
        .collect::<Vec<_>>();
    let anchor_row = panel
        .visible_messages
        .iter()
        .position(|message| Some(message.message_id) == panel.anchor_message_id);

    assert_eq!(visible, ["M2", "M3", "M4", "M5", "M6"]);
    assert_eq!(anchor_row, Some(1));
    assert_eq!(panel.hidden_newer_count, 1);
}

#[test]
fn person_anchor_is_preserved_when_trimming_per_user_message_cache() {
    let mut store = MessageStore::new(1000, 5);
    store.set_viewport_sizes(None, Some(5));
    for i in 1..=5 {
        store.ingest(raw(&format!("M{i}"), 42, i)).unwrap();
    }

    store.select_user_anchor(3);
    for i in 6..=8 {
        store.ingest(raw(&format!("M{i}"), 42, i)).unwrap();
    }

    let panel = store.snapshot().person_panel;
    let visible = panel
        .visible_messages
        .iter()
        .map(|message| message.content.clone())
        .collect::<Vec<_>>();
    let anchor_visible = panel
        .visible_messages
        .iter()
        .any(|message| Some(message.message_id) == panel.anchor_message_id);

    assert!(anchor_visible);
    assert_eq!(visible, ["M3", "M5", "M6", "M7", "M8"]);
}

#[test]
fn person_anchor_is_preserved_when_trimming_main_message_cache() {
    let mut store = MessageStore::new(5, 10);
    store.set_viewport_sizes(Some(5), Some(5));
    for i in 1..=5 {
        store.ingest(raw(&format!("M{i}"), 42, i)).unwrap();
    }

    store.select_user_anchor(3);
    for i in 6..=8 {
        store.ingest(raw(&format!("M{i}"), 42, i)).unwrap();
    }

    let panel = store.snapshot().person_panel;
    let visible = panel
        .visible_messages
        .iter()
        .map(|message| message.content.clone())
        .collect::<Vec<_>>();
    let anchor_visible = panel
        .visible_messages
        .iter()
        .any(|message| Some(message.message_id) == panel.anchor_message_id);

    assert!(anchor_visible);
    assert_eq!(visible, ["M3", "M4", "M5", "M6", "M7"]);
    assert_eq!(panel.hidden_newer_count, 1);
}

#[test]
fn person_viewport_scrolls_history_and_newer() {
    let mut store = MessageStore::new(1000, 50);
    store.set_viewport_sizes(None, Some(5));
    for i in 1..=9 {
        store.ingest(raw(&format!("M{i}"), 42, i)).unwrap();
    }

    store.select_user_anchor(4);
    assert_eq!(person_contents(&store), ["M3", "M4", "M5", "M6", "M7"]);
    assert_eq!(store.snapshot().person_panel.hidden_newer_count, 2);

    store.scroll_person_viewport(-2);
    assert_eq!(person_contents(&store), ["M1", "M2", "M3", "M4", "M5"]);
    assert_eq!(store.snapshot().person_panel.hidden_newer_count, 4);

    store.set_person_panel_hover(true);
    store.scroll_person_viewport(99);
    assert_eq!(person_contents(&store), ["M5", "M6", "M7", "M8", "M9"]);
    assert_eq!(store.snapshot().person_panel.hidden_newer_count, 0);

    store.set_person_panel_hover(false);
    store.ingest(raw("M10", 42, 10)).unwrap();
    assert_eq!(person_contents(&store), ["M5", "M6", "M7", "M8", "M9"]);
    assert_eq!(store.snapshot().person_panel.hidden_newer_count, 1);
}

#[test]
fn person_viewport_size_updates_to_fill_taller_panel() {
    let mut store = MessageStore::new(1000, 50);
    store.set_viewport_sizes(None, Some(5));
    for i in 1..=9 {
        store.ingest(raw(&format!("M{i}"), 42, i)).unwrap();
    }

    store.select_user_anchor(4);
    assert_eq!(person_contents(&store), ["M3", "M4", "M5", "M6", "M7"]);

    store.set_viewport_sizes(None, Some(8));

    assert_eq!(
        person_contents(&store),
        ["M2", "M3", "M4", "M5", "M6", "M7", "M8", "M9"]
    );
    assert_eq!(store.snapshot().person_panel.hidden_newer_count, 0);
}

#[test]
fn new_store_starts_disconnected_and_empty() {
    let store = MessageStore::new(1000, 50);
    let snapshot = store.snapshot();
    assert!(!snapshot.connected);
    assert_eq!(snapshot.connection_status, "未连接");
    assert!(snapshot.main_visible.is_empty());
    assert_eq!(snapshot.main_hidden_newer_count, 0);
    assert_eq!(store.next_message_id(), 1);
}

#[test]
fn set_connection_shows_the_status() {
    let mut store = MessageStore::new(1000, 50);
    store.set_connection("已连接！".to_string(), true);
    let snapshot = store.snapshot();
    assert!(snapshot.connected);
    assert_eq!(snapshot.connection_status, "已连接！");
}

#[test]
fn rejected_records_do_not_take_an_id() {
    let mut store = MessageStore::new(1000, 50);
    let mut bad = raw("x", 1, 1);
    bad.guard_type = 4;
    assert_eq!(store.ingest(bad).unwrap_err(), "guardType must be between 0 and 3");
    assert_eq!(store.next_message_id(), 1);
    let message = store.ingest(raw("ok", 1, 1)).unwrap();
    assert_eq!(message.message_id, 1);
    assert_eq!(store.next_message_id(), 2);
}

#[test]
fn main_capacity_drops_the_oldest_messages() {
    let mut store = MessageStore::new(3, 50);
    for content in ["A", "B", "C", "D", "E"] {
        store.ingest(raw(content, 1, 1)).unwrap();
    }
    assert_eq!(main_contents(&store), ["C", "D", "E"]);
}

#[test]
fn main_viewport_counts_hidden_newer_rows() {
    let mut store = MessageStore::new(1000, 50);
    store.set_viewport_sizes(Some(3), None);
    for content in ["A", "B", "C", "D", "E"] {
        store.ingest(raw(content, 1, 1)).unwrap();
    }
    assert_eq!(store.snapshot().main_hidden_newer_count, 2);
}

#[test]
fn viewport_sizes_are_clamped_to_one_through_a_hundred() {
    let mut store = MessageStore::new(1000, 50);
    store.set_viewport_sizes(Some(0), None);
    for content in ["A", "B"] {
        store.ingest(raw(content, 1, 1)).unwrap();
    }
    assert_eq!(main_contents(&store), ["A"]);
}

#[test]
fn another_senders_message_leaves_the_person_panel() {
    let mut store = MessageStore::new(1000, 2);
    store.set_viewport_sizes(None, Some(1));
    store.ingest(raw("A1", 1, 1)).unwrap();
    store.ingest(raw("A2", 1, 2)).unwrap();
    store.ingest(raw("B1", 2, 3)).unwrap();
    store.ingest(raw("B2", 2, 4)).unwrap();
    store.select_user_anchor(2);
    assert_eq!(person_contents(&store), ["A2"]);
    assert_eq!(store.snapshot().person_panel.hidden_newer_count, 0);

    store.ingest(raw("B3", 2, 5)).unwrap();

    assert_eq!(person_contents(&store), ["A2"]);
    assert_eq!(store.snapshot().person_panel.hidden_newer_count, 0);
}

#[test]
fn clicking_a_message_dropped_from_its_senders_list_still_shows_it() {
    let mut store = MessageStore::new(1000, 2);
    store.set_viewport_sizes(None, Some(5));
    for i in 1..=3 {
        store.ingest(raw(&format!("M{i}"), 42, i)).unwrap();
    }
    assert_eq!(main_contents(&store)[0], "M1");

    store.select_user_anchor(1);

    let panel = store.snapshot().person_panel;
    assert_eq!(panel.anchor_message_id, Some(1));
    assert_eq!(person_contents(&store), ["M1", "M3"]);
}

#[test]
fn acknowledging_twice_changes_nothing() {
    let mut store = MessageStore::new(1000, 50);
    store.set_viewport_sizes(Some(3), None);
    for content in ["A", "B", "C", "D", "E"] {
        store.ingest(raw(content, 1, 1)).unwrap();
    }
    store.ack_message(1);
    let once = main_contents(&store);
    store.ack_message(1);
    assert_eq!(main_contents(&store), once);
    assert_eq!(once, ["B", "C", "D"]);
}

#[test]
fn resizing_shows_as_many_rows_as_fit() {
    let mut store = MessageStore::new(1000, 50);
    for content in ["A", "B", "C", "D", "E"] {
        store.ingest(raw(content, 1, 1)).unwrap();
    }
    store.set_viewport_sizes(Some(1000), None);
    assert_eq!(store.snapshot().main_visible.len(), 5);
    store.set_viewport_sizes(Some(2), None);
    assert_eq!(store.snapshot().main_visible.len(), 2);
    store.select_user_anchor(3);
    store.set_viewport_sizes(None, Some(0));
    assert_eq!(store.snapshot().person_panel.visible_messages.len(), 1);
    assert_eq!(main_contents(&store), ["A", "B"]);
}

#[test]
fn a_frozen_panel_keeps_its_rows_and_counts_new_ones() {
    let mut store = MessageStore::new(1000, 50);
    store.set_viewport_sizes(None, Some(3));
    for i in 1..=5 {
        store.ingest(raw(&format!("M{i}"), 42, i)).unwrap();
    }
    store.select_user_anchor(2);
    store.set_person_panel_hover(true);
    let rows = person_contents(&store);
    let hidden = store.snapshot().person_panel.hidden_newer_count;
    store.ingest(raw("M6", 42, 6)).unwrap();
    assert_eq!(person_contents(&store), rows);
    assert_eq!(store.snapshot().person_panel.hidden_newer_count, hidden + 1);
}
