use danmu_tools::clock::{millis_since_epoch, now_ms};
use danmu_tools::json::JsonNumber;
use danmu_tools::models::{
    normalize_incoming, normalize_incoming_at, IncomingDanmuRaw, MessageType, SuperChatInfo,
    UidValue,
};

fn raw() -> IncomingDanmuRaw {
    IncomingDanmuRaw {
        content: "你好".to_string(),
        uid: UidValue::Number(JsonNumber::PosInt(100000001)),
        nickname: "观众A".to_string(),
        user_level: 12,
        fan_level: 8,
        guard_type: 0,
        message_type: MessageType::Danmu,
        super_chat: None,
        timestamp_ms: Some(1_700_000_000_123),
        timestamp: None,
    }
}

#[test]
fn accepts_official_fan_level_upper_bound() {
    let mut raw = raw();
    raw.fan_level = 120;

    let message = normalize_incoming(raw, 1).expect("fan level 120 should be accepted");

    assert_eq!(message.fan_level, 120);
}

#[test]
fn rejects_fan_level_above_official_range() {
    let mut raw = raw();
    raw.fan_level = 121;

    let error = normalize_incoming(raw, 1).expect_err("fan level 121 should be rejected");

    assert!(error.contains("fanLevel"));
    assert!(error.contains("120"));
}

#[test]
fn normalizes_super_chat_metadata_as_independent_message_type() {
    let mut raw = raw();
    raw.message_type = MessageType::SuperChat;
    raw.content = "这是一条醒目留言".to_string();
    raw.super_chat = Some(SuperChatInfo {
        id: Some("9001".to_string()),
        price: Some(30),
        start_time_ms: Some(1_700_000_000_000),
        end_time_ms: Some(1_700_000_060_000),
        duration_sec: Some(60),
    });

    let message = normalize_incoming(raw, 10).expect("super chat should normalize");

    assert_eq!(message.message_type, MessageType::SuperChat);
    assert_eq!(
        message.super_chat.expect("super chat metadata").price,
        Some(30)
    );
}

#[test]
fn normalized_message_keeps_the_record_and_is_unread() {
    let message = normalize_incoming(raw(), 7).unwrap();
    assert_eq!(message.message_id, 7);
    assert_eq!(message.uid, "100000001");
    assert_eq!(message.content, "你好");
    assert_eq!(message.timestamp_ms, 1_700_000_000_123);
    assert!(!message.read);
}

#[test]
fn seconds_become_milliseconds_and_a_missing_time_takes_now() {
    let mut seconds = raw();
    seconds.timestamp_ms = None;
    seconds.timestamp = Some(1_700_000_000);
    assert_eq!(normalize_incoming(seconds, 1).unwrap().timestamp_ms, 1_700_000_000_000);

    let mut untimed = raw();
    untimed.timestamp_ms = None;
    assert_eq!(normalize_incoming_at(untimed.clone(), 1, 1234).unwrap().timestamp_ms, 1234);
    assert!(normalize_incoming(untimed, 1).unwrap().timestamp_ms > 1_600_000_000_000);
}

#[test]
fn each_field_range_has_its_error() {
    let mut empty = raw();
    empty.content = String::new();
    assert_eq!(
        normalize_incoming(empty, 1).unwrap_err(),
        "content length must be between 1 and 40 characters"
    );
    let mut level = raw();
    level.user_level = 101;
    assert_eq!(normalize_incoming(level, 1).unwrap_err(), "userLevel must be between 0 and 100");
    let mut guard = raw();
    guard.guard_type = 4;
    assert_eq!(normalize_incoming(guard, 1).unwrap_err(), "guardType must be between 0 and 3");
    let mut uid = raw();
    uid.uid = UidValue::Other;
    assert_eq!(normalize_incoming(uid, 1).unwrap_err(), "uid must be a string or number");
    let mut text_uid = raw();
    text_uid.uid = UidValue::Text("abc".to_string());
    assert_eq!(normalize_incoming(text_uid, 1).unwrap().uid, "abc");
}

#[test]
fn clock_readings_become_i64_milliseconds() {
    assert_eq!(millis_since_epoch(Some(1_700_000_000_123)), 1_700_000_000_123);
    assert_eq!(millis_since_epoch(None), 0);
    assert_eq!(millis_since_epoch(Some(u128::from(u64::MAX) + 1)), 0);
    assert!(now_ms() > 1_600_000_000_000);
}
