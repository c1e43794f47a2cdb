use danmu_tools::connect::{
    cached_connect_info_during_cooldown, connect_api_http_timeout, connect_api_json_error,
    connect_api_wait_duration, connect_failure_message, first_ws_url, is_blank,
    is_http_connect_api_url, is_ws_url, parse_connect_api_response, ConnectApiCache,
    ConnectFailure, ConnectInfo, ProbeOptions, CONNECT_API_HTTP_TIMEOUT_SECS,
};
use danmu_tools::events::{
    frame_events, parse_notification_event, split_unix_timestamp, super_chat_times_in_range,
};
use danmu_tools::json::{value_at_path, JsonMember, JsonNumber, JsonValue};
use danmu_tools::models::{MessageType, UidValue};
use danmu_tools::probe::{analyze_notification_event, ProbeSamples};
use danmu_tools::protocol::{
    build_enter_packet, build_heartbeat_packet, build_packet, decode_frame, decode_packet,
    slice_packets, FramePackets, OP_HEARTBEAT_RESPONSE, OP_NOTIFICATION, OP_ROOM_ENTER_RESPONSE,
    PROTOCOL_BROTLI, PROTOCOL_PLAIN, PROTOCOL_ZLIB,
};
use std::io::Write;
use std::time::{Duration, Instant};

/// The library's model of a parsed JSON document.
fn to_json(value: &serde_json::Value) -> JsonValue {
    match value {
        serde_json::Value::Null => JsonValue::Null,
        serde_json::Value::Bool(b) => JsonValue::Bool(*b),
        serde_json::Value::Number(n) => JsonValue::Number(match (n.as_u64(), n.as_i64()) {
            (Some(u), _) => JsonNumber::PosInt(u),
            (None, Some(i)) => JsonNumber::NegInt(i),
            (None, None) => JsonNumber::Float(n.to_string()),
        }),
        serde_json::Value::String(s) => JsonValue::String(s.clone()),
        serde_json::Value::Array(items) => JsonValue::Array {
            items: items.iter().map(to_json).collect(),
            text: value.to_string(),
        },
        serde_json::Value::Object(map) => JsonValue::Object {
            members: map
                .iter()
                .map(|(key, member)| JsonMember {
                    key: key.clone(),
                    value: to_json(member),
                })
                .collect(),
            text: value.to_string(),
        },
    }
}

fn json_text(text: &str) -> JsonValue {
    to_json(&serde_json::from_str(text).expect("test JSON should parse"))
}

fn json_bytes(bytes: &[u8]) -> JsonValue {
    to_json(&serde_json::from_slice(bytes).expect("test JSON should parse"))
}

#[test]
fn parses_connect_api_response_and_validates_url_schemes() {
    let info = parse_connect_api_response(&json_text(
        r#"{
            "token": "danmu-token",
            "uid": 10001,
            "room_id": "23058",
            "wsurl": "wss://broadcastlv.chat.bilibili.com/sub"
        }"#,
    ))
    .expect("response should parse");

    assert_eq!(info.token, "danmu-token");
    assert_eq!(info.uid, 10001);
    assert_eq!(info.room_id, 23058);
    assert_eq!(info.wsurl, "wss://broadcastlv.chat.bilibili.com/sub");
    let array_info = parse_connect_api_response(&json_text(
        r#"{
            "token": "danmu-token",
            "uid": 10001,
            "room_id": 23058,
            "wsurl": [
                "wss://broadcastlv.chat.bilibili.com/sub",
                "wss://broadcastlv.chat.bilibili.com/sub2"
            ]
        }"#,
    ))
    .expect("array response should parse");
    assert_eq!(array_info.wsurl, "wss://broadcastlv.chat.bilibili.com/sub");
    let wrapped_info = parse_connect_api_response(&json_text(
        r#"{
            "code": 0,
            "data": {
                "token": "danmu-token",
                "uid": "10001",
                "roomid": 23058,
                "wsurl": ["wss://broadcastlv.chat.bilibili.com/sub"]
            }
        }"#,
    ))
    .expect("wrapped response should parse");
    assert_eq!(wrapped_info.uid, 10001);
    assert_eq!(wrapped_info.room_id, 23058);
    let anonymous_info = parse_connect_api_response(&json_text(
        r#"{
            "token": "danmu-token",
            "room_id": 23058,
            "mid": 3691005912025498,
            "wsurl": "wss://broadcastlv.chat.bilibili.com/sub"
        }"#,
    ))
    .expect("mid should be accepted as uid");
    assert_eq!(anonymous_info.uid, 3691005912025498);
    let anonymous_info = parse_connect_api_response(&json_text(
        r#"{
            "token": "danmu-token",
            "room_id": 23058,
            "wsurl": "wss://broadcastlv.chat.bilibili.com/sub"
        }"#,
    ))
    .expect("missing uid and mid should fall back to anonymous uid");
    assert_eq!(anonymous_info.uid, 0);
    assert!(is_http_connect_api_url(
        "http://127.0.0.1:2333/api/v1/external/danmu-reader/connect?token=abc"
    ));
    assert!(!is_http_connect_api_url("ws://127.0.0.1:17878"));
}

#[test]
fn does_not_apply_local_cooldown_after_connect_api_failure() {
    let last_request = Instant::now();

    assert_eq!(
        connect_api_wait_duration(
            Some(last_request),
            None,
            last_request + Duration::from_secs(3)
        ),
        None
    );
}

#[test]
fn does_not_reuse_cached_connect_info_for_ws_reconnects() {
    let last_request = Instant::now();
    let cached = ConnectInfo {
        token: "cached-token".to_string(),
        uid: 1,
        room_id: 2,
        wsurl: "wss://example.test/sub".to_string(),
    };

    assert!(cached_connect_info_during_cooldown(
        Some(last_request),
        Some(&cached),
        last_request + Duration::from_secs(3)
    )
    .is_none());
}

#[test]
fn connect_api_http_timeout_is_twenty_seconds() {
    assert_eq!(connect_api_http_timeout(), Duration::from_secs(20));
    assert_eq!(CONNECT_API_HTTP_TIMEOUT_SECS, 20);
}

#[test]
fn clearing_cached_connect_info_after_ws_failure_forces_next_api_fetch() {
    let last_request = Instant::now();
    let mut cache = ConnectApiCache {
        last_request_at: Some(last_request),
        last_success: Some(ConnectInfo {
            token: "stale-token".to_string(),
            uid: 1,
            room_id: 2,
            wsurl: "wss://example.test/sub".to_string(),
        }),
    };

    cache.clear_success_after_ws_failure();

    assert!(cache.last_success.is_none());
    assert_eq!(
        connect_api_wait_duration(
            cache.last_request_at,
            cache.last_success.as_ref(),
            last_request + Duration::from_secs(3)
        ),
        None
    );
}

#[test]
fn builds_enter_and_heartbeat_packets_with_bilibili_operation_codes() {
    let enter = build_enter_packet(10001, 23058, "danmu-token");
    let heartbeat = build_heartbeat_packet();

    assert_eq!(&enter[4..6], &[0, 16]);
    assert_eq!(&enter[8..12], &[0, 0, 0, 7]);
    assert!(String::from_utf8_lossy(&enter).contains(r#""roomid":23058"#));
    assert!(String::from_utf8_lossy(&enter).contains(r#""key":"danmu-token""#));
    assert_eq!(&heartbeat[8..12], &[0, 0, 0, 2]);
}

const DANMU_BODY: &str = r#"{
    "cmd": "DANMU_MSG",
    "info": [
        [0, 1, 25, 16777215, 1700000000123, 0, 0, "id", 0, 0, 0, "", 0, "{}"],
        "联调字段路径",
        [10001, "观众A", 0, 0, 0, 0, 0, "", 0, 0, 0, 0, 0, 0, 0, 0, [12]],
        [8, "粉丝牌", "主播", 23058],
        [11, 0, 0, 0],
        [],
        0,
        3,
        null,
        null,
        null,
        null,
        null,
        null,
        null,
        624,
        [24],
        null
    ]
}"#;

const SUPER_CHAT_BODY: &str = r#"{
    "cmd": "SUPER_CHAT_MESSAGE",
    "data": {
        "id": 9001,
        "uid": 10002,
        "message": "SC来了",
        "price": 30,
        "start_time": 1700000000,
        "end_time": 1700000060,
        "time": 60,
        "user_info": { "uname": "醒目用户", "user_level": 52 },
        "medal_info": { "medal_level": 12, "guard_level": 1 }
    }
}"#;

#[test]
fn extracts_notification_events_and_records_confirmed_danmu_paths() {
    let body: serde_json::Value = serde_json::from_str(DANMU_BODY).unwrap();

    let event = parse_notification_event(json_bytes(&serde_json::to_vec(&body).unwrap()))
        .expect("danmu event should parse");

    assert_eq!(event.raw.content, "联调字段路径");
    assert_eq!(event.raw.user_level, 24);
    assert_eq!(event.raw.fan_level, 8);
    assert_eq!(event.raw.guard_type, 3);
    assert_eq!(event.raw.timestamp_ms, Some(1_700_000_000_123));
    assert_eq!(event.raw.timestamp, None);
    let report = analyze_notification_event(event, 1_700_000_001_000);
    assert!(report.confirmed_paths.iter().any(|path| {
        path.field == "userLevel" && path.path == "info.16.0" && path.value == "24"
    }));
    assert!(!report
        .confirmed_paths
        .iter()
        .any(|path| path.field == "userLevel" && path.path == "info.4.0"));
}

#[test]
fn extracts_super_chat_as_independent_message_with_metadata() {
    let body: serde_json::Value = serde_json::from_str(SUPER_CHAT_BODY).unwrap();

    let event = parse_notification_event(json_bytes(&serde_json::to_vec(&body).unwrap()))
        .expect("super chat event should parse");

    assert_eq!(event.raw.message_type, MessageType::SuperChat);
    assert_eq!(event.raw.content, "SC来了");
    assert_eq!(event.raw.nickname, "醒目用户");
    assert_eq!(event.raw.user_level, 52);
    assert_eq!(event.raw.fan_level, 12);
    assert_eq!(
        event
            .raw
            .super_chat
            .expect("super chat metadata")
            .duration_sec,
        Some(60)
    );
}

#[test]
fn super_chat_event_carries_times_id_and_price() {
    let root = json_text(SUPER_CHAT_BODY);
    assert!(super_chat_times_in_range(&root));
    let event = parse_notification_event(root).expect("super chat event should parse");
    assert_eq!(event.cmd, "SUPER_CHAT_MESSAGE");
    assert_eq!(event.raw.guard_type, 1);
    assert_eq!(event.raw.timestamp, Some(1_700_000_000));
    assert_eq!(event.raw.timestamp_ms, None);
    assert!(matches!(event.raw.uid, UidValue::Number(JsonNumber::PosInt(10002))));
    let info = event.raw.super_chat.expect("super chat metadata");
    assert_eq!(info.id.as_deref(), Some("9001"));
    assert_eq!(info.price, Some(30));
    assert_eq!(info.start_time_ms, Some(1_700_000_000_000));
    assert_eq!(info.end_time_ms, Some(1_700_000_060_000));
    assert!(event.warnings.is_empty());
}

#[test]
fn missing_danmu_fields_are_warned_and_defaulted() {
    let event = parse_notification_event(json_text(r#"{"cmd": "DANMU_MSG:4:0:2:2:2:0", "info": []}"#))
        .expect("danmu event should parse");
    assert_eq!(event.cmd, "DANMU_MSG");
    assert_eq!(event.raw.content, "");
    assert_eq!(event.raw.user_level, 0);
    assert!(matches!(event.raw.uid, UidValue::Number(JsonNumber::PosInt(0))));
    assert!(event.confirmed_paths.is_empty());
    assert_eq!(event.warnings.len(), 7);
    assert_eq!(event.warnings[0], "content 未在候选路径中找到，已降级");
}

#[test]
fn levels_above_the_cap_are_capped() {
    let event = parse_notification_event(json_text(
        r#"{"cmd": "DANMU_MSG", "info": [[0,0,0,0,5], "x", [1, "n"], [200], [0], [], 0, 9, 0,0,0,0,0,0,0,0, [250]]}"#,
    ))
    .expect("danmu event should parse");
    assert_eq!(event.raw.user_level, 100);
    assert_eq!(event.raw.fan_level, 120);
    assert_eq!(event.raw.guard_type, 3);
    assert_eq!(event.raw.timestamp, Some(5));
    assert_eq!(event.raw.timestamp_ms, None);
}

#[test]
fn other_commands_give_no_event() {
    assert!(parse_notification_event(json_text(r#"{"cmd": "INTERACT_WORD"}"#)).is_none());
    assert!(parse_notification_event(json_text(r#"{"data": 1}"#)).is_none());
    assert!(parse_notification_event(json_text(r#"[1, 2]"#)).is_none());
}

#[test]
fn split_unix_timestamp_tells_seconds_from_milliseconds() {
    assert_eq!(split_unix_timestamp(Some(10_000_000_000)), (Some(10_000_000_000), None));
    assert_eq!(split_unix_timestamp(Some(9_999_999_999)), (None, Some(9_999_999_999)));
    assert_eq!(split_unix_timestamp(None), (None, None));
}

#[test]
fn value_at_path_walks_objects_and_arrays() {
    let root = json_text(r#"{"a": {"b": [10, {"c": "x"}]}}"#);
    assert!(matches!(value_at_path(&root, "a.b.0"), Some(JsonValue::Number(JsonNumber::PosInt(10)))));
    assert!(matches!(value_at_path(&root, "a.b.1.c"), Some(JsonValue::String(s)) if s == "x"));
    assert!(value_at_path(&root, "a.b.2").is_none());
    assert!(value_at_path(&root, "a.c").is_none());
}

#[test]
fn connect_api_errors_name_the_missing_field() {
    let error = |text: &str| parse_connect_api_response(&json_text(text)).unwrap_err();
    assert_eq!(error(r#"{"room_id": 1, "wsurl": "wss://a/b"}"#), "连接接口返回 token 为空");
    assert_eq!(
        error(r#"{"token": " \t ", "room_id": 1, "wsurl": "wss://a/b"}"#),
        "连接接口返回 token 为空"
    );
    assert_eq!(
        error(r#"{"token": "t", "room_id": 1, "wsurl": "https://a/b"}"#),
        "连接接口返回 wsurl 必须包含 ws:// 或 wss://"
    );
    assert_eq!(
        error(r#"{"token": "t", "room_id": "abc", "wsurl": "ws://a/b"}"#),
        "连接接口 room_id 无效"
    );
    let info = parse_connect_api_response(&json_text(
        r#"{"token": 77, "room_id": 5, "ws_url": ["http://a", 3, "ws://b/c"]}"#,
    ))
    .expect("numeric token and later ws url should be accepted");
    assert_eq!(info.token, "77");
    assert_eq!(info.wsurl, "ws://b/c");
}

#[test]
fn url_schemes_come_from_the_url_parser() {
    assert!(is_http_connect_api_url("HTTPS://Example.test/connect"));
    assert!(!is_http_connect_api_url("not a url"));
    assert!(is_ws_url("wss://broadcastlv.chat.bilibili.com/sub"));
    assert!(!is_ws_url("http://broadcastlv.chat.bilibili.com/sub"));
    assert!(first_ws_url(&json_text(r#""ws://a/b""#)).is_some());
    assert!(first_ws_url(&json_text(r#"["x", "y"]"#)).is_none());
    assert!(is_blank(" \u{3000}\n"));
    assert!(!is_blank(" a "));
}

#[test]
fn connect_cache_records_requests_and_replies() {
    let mut cache = ConnectApiCache::default();
    assert!(cache.last_request_at.is_none());
    let now = Instant::now();
    assert_eq!(
        cache.begin_request("ws://127.0.0.1:17878", now),
        Err("接口地址必须是 http:// 或 https://".to_string())
    );
    assert!(cache.last_request_at.is_none());
    assert_eq!(cache.begin_request("http://127.0.0.1:2333/connect", now), Ok(()));
    assert_eq!(cache.last_request_at, Some(now));
    let info = cache
        .finish_request(&json_text(r#"{"token": "t", "room_id": 9, "wsurl": "wss://a/b"}"#))
        .expect("reply should parse");
    assert_eq!(info.room_id, 9);
    assert_eq!(cache.last_success.as_ref().map(|info| info.room_id), Some(9));
    assert!(cache.finish_request(&json_text(r#"{}"#)).is_err());
    assert_eq!(cache.last_success.as_ref().map(|info| info.token.as_str()), Some("t"));
}

#[test]
fn connect_failures_read_as_their_stage() {
    assert_eq!(connect_failure_message(ConnectFailure::Send, true, "x"), "连接接口请求超时");
    assert_eq!(connect_failure_message(ConnectFailure::Read, true, "x"), "连接接口请求超时");
    assert_eq!(connect_failure_message(ConnectFailure::Send, false, "boom"), "连接接口请求失败：boom");
    assert_eq!(connect_failure_message(ConnectFailure::Read, false, "boom"), "连接接口读取失败：boom");
    assert_eq!(connect_failure_message(ConnectFailure::Status, true, "404"), "连接接口 HTTP 状态失败：404");
    assert_eq!(connect_failure_message(ConnectFailure::Client, false, "tls"), "连接接口客户端创建失败：tls");
    assert_eq!(connect_api_json_error("eof"), "连接接口返回 JSON 解析失败：eof");
}

#[test]
fn probe_options_default_to_five_samples_in_thirty_seconds() {
    let options = ProbeOptions::default();
    assert_eq!(options.min_danmu_samples, 5);
    assert_eq!(options.max_duration, Duration::from_secs(30));
}

#[test]
fn decoding_reads_back_built_packets() {
    let built = build_packet(PROTOCOL_PLAIN, OP_NOTIFICATION, b"{\"a\":1}");
    assert_eq!(built.len(), 23);
    let packet = decode_packet(&built).expect("built packet should decode");
    assert_eq!(packet.protocol_version, PROTOCOL_PLAIN);
    assert_eq!(packet.operation, OP_NOTIFICATION);
    assert_eq!(packet.body, b"{\"a\":1}".to_vec());

    let mut both = build_packet(PROTOCOL_PLAIN, OP_HEARTBEAT_RESPONSE, &[0, 0, 0, 9]);
    both.extend(build_packet(PROTOCOL_PLAIN, OP_NOTIFICATION, b"x"));
    let packets = slice_packets(&both).expect("two packets should slice");
    assert_eq!(packets.len(), 2);
    assert_eq!(packets[0].operation, OP_HEARTBEAT_RESPONSE);
    assert_eq!(packets[1].body, b"x".to_vec());
}

#[test]
fn decoding_rejects_malformed_packets() {
    assert_eq!(decode_packet(&[0; 15]).unwrap_err(), "Bilibili packet 长度不足");
    let mut built = build_packet(PROTOCOL_PLAIN, OP_NOTIFICATION, b"abc");
    built.push(0);
    assert_eq!(decode_packet(&built).unwrap_err(), "Bilibili packet 长度不匹配");
    assert_eq!(slice_packets(&[0, 0]).unwrap_err(), "Bilibili packet 分片长度不足");
    assert_eq!(slice_packets(&[0, 0, 0, 0]).unwrap_err(), "Bilibili packet 分片长度不匹配");
    let odd = build_packet(9, OP_NOTIFICATION, b"");
    assert_eq!(decode_frame(&odd).unwrap_err(), "未知 Bilibili protocolVersion：9");
    let broken = build_packet(PROTOCOL_ZLIB, OP_NOTIFICATION, b"not zlib");
    assert!(decode_frame(&broken).unwrap_err().starts_with("zlib 解压失败："));
}

fn frame_with_inner(protocol: u16, inner: &[u8]) -> Vec<u8> {
    let body = match protocol {
        PROTOCOL_ZLIB => {
            let mut encoder = flate2::write::ZlibEncoder::new(Vec::new(), flate2::Compression::default());
            encoder.write_all(inner).unwrap();
            encoder.finish().unwrap()
        }
        _ => {
            let mut out = Vec::new();
            {
                let mut writer = brotli::CompressorWriter::new(&mut out, 4096, 5, 22);
                writer.write_all(inner).unwrap();
            }
            out
        }
    };
    build_packet(protocol, OP_NOTIFICATION, &body)
}

#[test]
fn compressed_frames_unpack_into_their_packets() {
    let mut inner = build_packet(PROTOCOL_PLAIN, OP_NOTIFICATION, DANMU_BODY.as_bytes());
    inner.extend(build_packet(PROTOCOL_PLAIN, OP_ROOM_ENTER_RESPONSE, b"{}"));
    inner.extend(build_packet(PROTOCOL_PLAIN, OP_NOTIFICATION, b"{\"cmd\":\"WATCHED\"}"));
    for protocol in [PROTOCOL_ZLIB, PROTOCOL_BROTLI] {
        let frame = decode_frame(&frame_with_inner(protocol, &inner)).expect("frame should decode");
        assert!(frame.room_enter_response);
        assert!(!frame.heartbeat_response);
        assert_eq!(frame.notification_bodies.len(), 2);
        assert_eq!(frame.notification_bodies[0], DANMU_BODY.as_bytes().to_vec());
    }
}

#[test]
fn frame_events_sort_notifications() {
    let frame = FramePackets {
        notification_bodies: vec![],
        heartbeat_response: true,
        room_enter_response: false,
    };
    let parsed = vec![
        Some(json_text(DANMU_BODY)),
        None,
        Some(json_text(r#"{"cmd": "WATCHED_CHANGE"}"#)),
        Some(json_text(SUPER_CHAT_BODY)),
    ];
    let events = frame_events(&frame, parsed);
    assert!(events.heartbeat_response);
    assert!(!events.room_enter_response);
    assert_eq!(events.other_notifications, 2);
    assert_eq!(events.events.len(), 2);
    assert_eq!(events.events[0].cmd, "DANMU_MSG");
    assert_eq!(events.events[1].cmd, "SUPER_CHAT_MESSAGE");
}

#[test]
fn probe_keeps_danmaku_up_to_the_minimum_and_every_super_chat() {
    let frame = FramePackets {
        notification_bodies: vec![],
        heartbeat_response: false,
        room_enter_response: false,
    };
    let parsed = vec![
        Some(json_text(DANMU_BODY)),
        Some(json_text(DANMU_BODY)),
        Some(json_text(SUPER_CHAT_BODY)),
        Some(json_text(DANMU_BODY)),
        None,
    ];
    let mut samples = ProbeSamples::new();
    samples.take_frame_at(frame_events(&frame, parsed), 42, 2);
    assert_eq!(samples.danmu_samples.len(), 2);
    assert_eq!(samples.super_chat_samples.len(), 1);
    assert_eq!(samples.other_notifications, 1);
    assert_eq!(samples.danmu_samples[0].recv_ms, 42);
    assert!(samples.has_enough_danmu(2));
    let info = ConnectInfo {
        token: "t".to_string(),
        uid: 7,
        room_id: 8,
        wsurl: "wss://a/b".to_string(),
    };
    let report = samples.finish(&info, 1, 2, Some("WebSocket 已关闭".to_string()));
    assert_eq!(report.super_chat_status, "已捕获 SC 样本；WebSocket 已关闭");
    assert_eq!(report.connect.room_id, 8);
    assert_eq!(report.report_path, None);
    let empty = ProbeSamples::new().finish(&info, 1, 2, None);
    assert_eq!(empty.super_chat_status, "未捕获 SC 样本");
}
