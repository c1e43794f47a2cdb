//! Danmaku and super-chat notifications: where each field sits in the JSON
//! body, which candidate path supplied it, and the raw record built from it.

use vstd::prelude::*;
use crate::json::{
    format_value, spec_format_value, spec_value_at_path, spec_value_to_i64, spec_value_to_string,
    spec_value_to_u64, value_at_path, value_to_i64, value_to_string, value_to_u64, JsonNumber,
    JsonValue, object_get, spec_object_get,
};
use crate::models::{IncomingDanmuRaw, MessageType, SuperChatInfo, UidValue};
use crate::protocol::FramePackets;
use crate::text::{chars_of, push_char, push_str, str_eq};

verus! {

/// Which candidate path supplied a field, and the value found there.
#[derive(Clone, Debug, PartialEq, Eq)]
pub struct ConfirmedPath {
    pub field: String,
    pub path: String,
    pub value: String,
}

/// A notification turned into a raw danmaku record, with the trail of how
/// its fields were found.
#[derive(Debug)]
pub struct ParsedNotificationEvent {
    pub cmd: String,
    pub raw: IncomingDanmuRaw,
    pub confirmed_paths: Vec<ConfirmedPath>,
    pub warnings: Vec<String>,
    pub raw_json: JsonValue,
}

/// The confirmed paths and warnings gathered so far.
pub struct Trail {
    pub confirmed: Seq<(Seq<char>, Seq<char>, Seq<char>)>,
    pub warnings: Seq<Seq<char>>,
}

pub open spec fn confirmed_view(v: Seq<ConfirmedPath>) -> Seq<(Seq<char>, Seq<char>, Seq<char>)> {
    v.map_values(|c: ConfirmedPath| (c.field@, c.path@, c.value@))
}

pub open spec fn texts_view(v: Seq<String>) -> Seq<Seq<char>> {
    v.map_values(|s: String| s@)
}

pub open spec fn strs_view(v: Seq<&str>) -> Seq<Seq<char>> {
    v.map_values(|s: &str| s@)
}

pub open spec fn trail_of(confirmed: Seq<ConfirmedPath>, warnings: Seq<String>) -> Trail {
    Trail { confirmed: confirmed_view(confirmed), warnings: texts_view(warnings) }
}

pub open spec fn empty_trail() -> Trail {
    Trail { confirmed: Seq::empty(), warnings: Seq::empty() }
}

/// The first candidate path that leads to a value, with that value.
pub open spec fn first_found(root: JsonValue, paths: Seq<Seq<char>>) -> Option<(Seq<char>, JsonValue)>
    decreases paths.len(),
{
    if paths.len() == 0 {
        None
    } else {
        match spec_value_at_path(root, paths[0]) {
            Some(v) => Some((paths[0], v)),
            None => first_found(root, paths.drop_first()),
        }
    }
}

pub open spec fn found_value(f: Option<(Seq<char>, JsonValue)>) -> Option<JsonValue> {
    match f {
        Some(p) => Some(p.1),
        None => None,
    }
}

/// The warning recorded when no candidate path of `field` leads to a value.
pub open spec fn missing_warning(field: Seq<char>) -> Seq<char> {
    field + " 未在候选路径中找到，已降级"@
}

/// The trail after looking `field` up: a confirmed path when one was found,
/// a warning otherwise.
pub open spec fn record_lookup(t: Trail, field: Seq<char>, f: Option<(Seq<char>, JsonValue)>) -> Trail {
    match f {
        Some(p) => Trail {
            confirmed: t.confirmed.push((field, p.0, spec_format_value(p.1))),
            warnings: t.warnings,
        },
        None => Trail { confirmed: t.confirmed, warnings: t.warnings.push(missing_warning(field)) },
    }
}

/// Looks `field` up along candidate `paths`, recording the outcome.
pub fn value_from_candidates<'a>(
    root: &'a JsonValue,
    field: &str,
    paths: &[&str],
    confirmed_paths: &mut Vec<ConfirmedPath>,
    warnings: &mut Vec<String>,
) -> (r: Option<&'a JsonValue>)
    ensures
        ({
            let f = first_found(*root, strs_view(paths@));
            &&& r matches Some(v) ==> found_value(f) == Some(*v)
            &&& r is None ==> f is None
            &&& trail_of(final(confirmed_paths)@, final(warnings)@) == record_lookup(
                trail_of(old(confirmed_paths)@, old(warnings)@),
                field@,
                f,
            )
        }),
{
    let ghost all = strs_view(paths@);
    let mut i: usize = 0;
    assert(all.skip(0) =~= all);
    while i < paths.len()
        invariant
            i <= paths@.len(),
            all == strs_view(paths@),
            first_found(*root, all) == first_found(*root, all.skip(i as int)),
            confirmed_paths@ == old(confirmed_paths)@,
            warnings@ == old(warnings)@,
        decreases paths@.len() - i,
    {
        let ghost rest = all.skip(i as int);
        assert(rest[0] == paths@[i as int]@);
        assert(rest.drop_first() =~= all.skip(i + 1));
        let path = paths[i];
        match value_at_path(root, path) {
            Some(value) => {
                let ghost before = confirmed_view(confirmed_paths@);
                confirmed_paths.push(
                    ConfirmedPath {
                        field: String::from_str(field),
                        path: String::from_str(path),
                        value: format_value(value),
                    },
                );
                assert(confirmed_view(confirmed_paths@) =~= before.push(
                    (field@, path@, spec_format_value(*value)),
                ));
                return Some(value);
            },
            None => {},
        }
        i += 1;
    }
    assert(all.skip(i as int) =~= Seq::<Seq<char>>::empty());
    let ghost before = texts_view(warnings@);
    let mut warning = String::from_str(field);
    push_str(&mut warning, " 未在候选路径中找到，已降级");
    warnings.push(warning);
    assert(texts_view(warnings@) =~= before.push(missing_warning(field@)));
    None
}

/// The text of a value, or the empty text.
pub open spec fn text_or_empty(v: Option<JsonValue>) -> Seq<char> {
    match v {
        Some(x) => match spec_value_to_string(x) {
            Some(s) => s,
            None => Seq::empty(),
        },
        None => Seq::empty(),
    }
}

/// A level read as an unsigned number, capped at `max`; 0 when missing.
pub open spec fn level_or_zero(v: Option<JsonValue>, max: u8) -> u8 {
    match v {
        Some(x) => match spec_value_to_u64(x) {
            Some(n) => if n < max {
                n as u8
            } else {
                max
            },
            None => 0,
        },
        None => 0,
    }
}

pub open spec fn u64_of(v: Option<JsonValue>) -> Option<u64> {
    match v {
        Some(x) => spec_value_to_u64(x),
        None => None,
    }
}

pub open spec fn i64_of(v: Option<JsonValue>) -> Option<i64> {
    match v {
        Some(x) => spec_value_to_i64(x),
        None => None,
    }
}

/// A sender id as the record holds it: 0 when missing.
pub open spec fn uid_of(v: Option<JsonValue>) -> UidValue {
    match v {
        Some(JsonValue::String(s)) => UidValue::Text(s),
        Some(JsonValue::Number(n)) => UidValue::Number(n),
        Some(_) => UidValue::Other,
        None => UidValue::Number(JsonNumber::PosInt(0)),
    }
}

pub fn string_from_candidates(
    root: &JsonValue,
    field: &str,
    paths: &[&str],
    confirmed_paths: &mut Vec<ConfirmedPath>,
    warnings: &mut Vec<String>,
) -> (r: String)
    ensures
        ({
            let f = first_found(*root, strs_view(paths@));
            &&& r@ == text_or_empty(found_value(f))
            &&& trail_of(final(confirmed_paths)@, final(warnings)@) == record_lookup(
                trail_of(old(confirmed_paths)@, old(warnings)@),
                field@,
                f,
            )
        }),
{
    match value_from_candidates(root, field, paths, confirmed_paths, warnings) {
        Some(v) => match value_to_string(v) {
            Some(s) => s,
            None => String::new(),
        },
        None => String::new(),
    }
}

pub fn u8_from_candidates(
    root: &JsonValue,
    field: &str,
    paths: &[&str],
    max: u8,
    confirmed_paths: &mut Vec<ConfirmedPath>,
    warnings: &mut Vec<String>,
) -> (r: u8)
    ensures
        ({
            let f = first_found(*root, strs_view(paths@));
            &&& r == level_or_zero(found_value(f), max)
            &&& trail_of(final(confirmed_paths)@, final(warnings)@) == record_lookup(
                trail_of(old(confirmed_paths)@, old(warnings)@),
                field@,
                f,
            )
        }),
{
    match value_from_candidates(root, field, paths, confirmed_paths, warnings) {
        Some(v) => match value_to_u64(v) {
            Some(n) => if n < max as u64 {
                n as u8
            } else {
                max
            },
            None => 0,
        },
        None => 0,
    }
}

pub fn u64_from_candidates(
    root: &JsonValue,
    field: &str,
    paths: &[&str],
    confirmed_paths: &mut Vec<ConfirmedPath>,
    warnings: &mut Vec<String>,
) -> (r: Option<u64>)
    ensures
        ({
            let f = first_found(*root, strs_view(paths@));
            &&& r == u64_of(found_value(f))
            &&& trail_of(final(confirmed_paths)@, final(warnings)@) == record_lookup(
                trail_of(old(confirmed_paths)@, old(warnings)@),
                field@,
                f,
            )
        }),
{
    match value_from_candidates(root, field, paths, confirmed_paths, warnings) {
        Some(v) => value_to_u64(v),
        None => None,
    }
}

pub fn i64_from_candidates(
    root: &JsonValue,
    field: &str,
    paths: &[&str],
    confirmed_paths: &mut Vec<ConfirmedPath>,
    warnings: &mut Vec<String>,
) -> (r: Option<i64>)
    ensures
        ({
            let f = first_found(*root, strs_view(paths@));
            &&& r == i64_of(found_value(f))
            &&& trail_of(final(confirmed_paths)@, final(warnings)@) == record_lookup(
                trail_of(old(confirmed_paths)@, old(warnings)@),
                field@,
                f,
            )
        }),
{
    match value_from_candidates(root, field, paths, confirmed_paths, warnings) {
        Some(v) => value_to_i64(v),
        None => None,
    }
}

/// The sender id found along `paths`, as the record holds it.
pub fn uid_from_candidates(
    root: &JsonValue,
    field: &str,
    paths: &[&str],
    confirmed_paths: &mut Vec<ConfirmedPath>,
    warnings: &mut Vec<String>,
) -> (r: UidValue)
    ensures
        ({
            let f = first_found(*root, strs_view(paths@));
            &&& r == uid_of(found_value(f))
            &&& trail_of(final(confirmed_paths)@, final(warnings)@) == record_lookup(
                trail_of(old(confirmed_paths)@, old(warnings)@),
                field@,
                f,
            )
        }),
{
    match value_from_candidates(root, field, paths, confirmed_paths, warnings) {
        Some(JsonValue::String(s)) => UidValue::Text(s.clone()),
        Some(JsonValue::Number(n)) => UidValue::Number(n.duplicate()),
        Some(_) => UidValue::Other,
        None => UidValue::Number(JsonNumber::PosInt(0)),
    }
}

/// Unix times from 10^10 on are taken as milliseconds, smaller ones as seconds.
pub open spec fn spec_split_unix_timestamp(value: Option<i64>) -> (Option<i64>, Option<i64>) {
    match value {
        Some(v) => if v >= 10_000_000_000 {
            (Some(v), None)
        } else {
            (None, Some(v))
        },
        None => (None, None),
    }
}

pub fn split_unix_timestamp(value: Option<i64>) -> (r: (Option<i64>, Option<i64>))
    ensures
        r == spec_split_unix_timestamp(value),
{
    match value {
        Some(v) => if v >= 10_000_000_000 {
            (Some(v), None)
        } else {
            (None, Some(v))
        },
        None => (None, None),
    }
}

/// Where a danmaku notification keeps each field, candidates in order.
pub open spec fn danmu_paths(field: int) -> Seq<Seq<char>> {
    if field == 0 {
        seq!["info.1"@, "info.0.15.extra.content"@]
    } else if field == 1 {
        seq!["info.2.0"@]
    } else if field == 2 {
        seq!["info.2.1"@]
    } else if field == 3 {
        seq!["info.16.0"@, "info.4.0"@, "info.2.16.0"@]
    } else if field == 4 {
        seq!["info.3.0"@]
    } else if field == 5 {
        seq!["info.7"@]
    } else {
        seq!["info.0.4"@]
    }
}

pub open spec fn danmu_found(root: JsonValue, field: int) -> Option<(Seq<char>, JsonValue)> {
    first_found(root, danmu_paths(field))
}

/// The trail of a danmaku notification's lookups: content, uid, nickname,
/// userLevel, fanLevel, guardType, timestamp.
pub open spec fn danmu_trail(root: JsonValue) -> Trail {
    let t1 = record_lookup(empty_trail(), "content"@, danmu_found(root, 0));
    let t2 = record_lookup(t1, "uid"@, danmu_found(root, 1));
    let t3 = record_lookup(t2, "nickname"@, danmu_found(root, 2));
    let t4 = record_lookup(t3, "userLevel"@, danmu_found(root, 3));
    let t5 = record_lookup(t4, "fanLevel"@, danmu_found(root, 4));
    let t6 = record_lookup(t5, "guardType"@, danmu_found(root, 5));
    record_lookup(t6, "timestamp"@, danmu_found(root, 6))
}

/// `e` is the event that a danmaku notification `root` with command `cmd` gives.
pub open spec fn is_danmu_event(e: ParsedNotificationEvent, cmd: Seq<char>, root: JsonValue) -> bool {
    let times = spec_split_unix_timestamp(i64_of(found_value(danmu_found(root, 6))));
    &&& e.cmd@ == cmd
    &&& e.raw_json == root
    &&& e.raw.content@ == text_or_empty(found_value(danmu_found(root, 0)))
    &&& e.raw.uid == uid_of(found_value(danmu_found(root, 1)))
    &&& e.raw.nickname@ == text_or_empty(found_value(danmu_found(root, 2)))
    &&& e.raw.user_level == level_or_zero(found_value(danmu_found(root, 3)), 100)
    &&& e.raw.fan_level == level_or_zero(found_value(danmu_found(root, 4)), 120)
    &&& e.raw.guard_type == level_or_zero(found_value(danmu_found(root, 5)), 3)
    &&& e.raw.message_type == MessageType::Danmu
    &&& e.raw.super_chat is None
    &&& e.raw.timestamp_ms == times.0
    &&& e.raw.timestamp == times.1
    &&& trail_of(e.confirmed_paths@, e.warnings@) == danmu_trail(root)
}

/// Reads a danmaku notification.
pub fn parse_danmu_event(cmd: String, raw_json: JsonValue) -> (r: Option<ParsedNotificationEvent>)
    ensures
        r matches Some(e) && is_danmu_event(e, cmd@, raw_json),
{
    let mut confirmed_paths: Vec<ConfirmedPath> = Vec::new();
    let mut warnings: Vec<String> = Vec::new();
    assert(trail_of(confirmed_paths@, warnings@) == empty_trail()) by {
        assert(confirmed_view(confirmed_paths@) =~= Seq::empty());
        assert(texts_view(warnings@) =~= Seq::empty());
    }
    let content_paths: [&str; 2] = ["info.1", "info.0.15.extra.content"];
    assert(strs_view(content_paths@) =~= danmu_paths(0));
    let content = string_from_candidates(
        &raw_json,
        "content",
        &content_paths,
        &mut confirmed_paths,
        &mut warnings,
    );
    let uid_paths: [&str; 1] = ["info.2.0"];
    assert(strs_view(uid_paths@) =~= danmu_paths(1));
    let uid = uid_from_candidates(&raw_json, "uid", &uid_paths, &mut confirmed_paths, &mut warnings);
    let nickname_paths: [&str; 1] = ["info.2.1"];
    assert(strs_view(nickname_paths@) =~= danmu_paths(2));
    let nickname = string_from_candidates(
        &raw_json,
        "nickname",
        &nickname_paths,
        &mut confirmed_paths,
        &mut warnings,
    );
    let user_level_paths: [&str; 3] = ["info.16.0", "info.4.0", "info.2.16.0"];
    assert(strs_view(user_level_paths@) =~= danmu_paths(3));
    let user_level = u8_from_candidates(
        &raw_json,
        "userLevel",
        &user_level_paths,
        100,
        &mut confirmed_paths,
        &mut warnings,
    );
    let fan_level_paths: [&str; 1] = ["info.3.0"];
    assert(strs_view(fan_level_paths@) =~= danmu_paths(4));
    let fan_level = u8_from_candidates(
        &raw_json,
        "fanLevel",
        &fan_level_paths,
        120,
        &mut confirmed_paths,
        &mut warnings,
    );
    let guard_paths: [&str; 1] = ["info.7"];
    assert(strs_view(guard_paths@) =~= danmu_paths(5));
    let guard_type = u8_from_candidates(
        &raw_json,
        "guardType",
        &guard_paths,
        3,
        &mut confirmed_paths,
        &mut warnings,
    );
    let timestamp_paths: [&str; 1] = ["info.0.4"];
    assert(strs_view(timestamp_paths@) =~= danmu_paths(6));
    let timestamp = i64_from_candidates(
        &raw_json,
        "timestamp",
        &timestamp_paths,
        &mut confirmed_paths,
        &mut warnings,
    );
    let (timestamp_ms, timestamp) = split_unix_timestamp(timestamp);
    Some(
        ParsedNotificationEvent {
            cmd,
            raw: IncomingDanmuRaw {
                content,
                uid,
                nickname,
                user_level,
                fan_level,
                guard_type,
                message_type: MessageType::Danmu,
                super_chat: None,
                timestamp_ms,
                timestamp,
            },
            confirmed_paths,
            warnings,
            raw_json,
        },
    )
}

/// Where a super-chat notification keeps each field, candidates in order.
pub open spec fn super_chat_paths(field: int) -> Seq<Seq<char>> {
    if field == 0 {
        seq!["data.message"@]
    } else if field == 1 {
        seq!["data.uid"@]
    } else if field == 2 {
        seq!["data.user_info.uname"@]
    } else if field == 3 {
        seq!["data.user_info.user_level"@]
    } else if field == 4 {
        seq!["data.medal_info.medal_level"@]
    } else if field == 5 {
        seq!["data.medal_info.guard_level"@, "data.user_info.guard_level"@]
    } else if field == 6 {
        seq!["data.start_time"@, "data.ts"@]
    } else if field == 7 {
        seq!["data.end_time"@]
    } else if field == 8 {
        seq!["data.time"@]
    } else if field == 9 {
        seq!["data.price"@]
    } else {
        seq!["data.id"@, "data.token"@]
    }
}

pub open spec fn super_chat_found(root: JsonValue, field: int) -> Option<(Seq<char>, JsonValue)> {
    first_found(root, super_chat_paths(field))
}

/// The trail of a super-chat notification's lookups.
pub open spec fn super_chat_trail(root: JsonValue) -> Trail {
    let t1 = record_lookup(empty_trail(), "content"@, super_chat_found(root, 0));
    let t2 = record_lookup(t1, "uid"@, super_chat_found(root, 1));
    let t3 = record_lookup(t2, "nickname"@, super_chat_found(root, 2));
    let t4 = record_lookup(t3, "userLevel"@, super_chat_found(root, 3));
    let t5 = record_lookup(t4, "fanLevel"@, super_chat_found(root, 4));
    let t6 = record_lookup(t5, "guardType"@, super_chat_found(root, 5));
    let t7 = record_lookup(t6, "timestamp"@, super_chat_found(root, 6));
    let t8 = record_lookup(t7, "superChat.endTime"@, super_chat_found(root, 7));
    let t9 = record_lookup(t8, "superChat.durationSec"@, super_chat_found(root, 8));
    let t10 = record_lookup(t9, "superChat.price"@, super_chat_found(root, 9));
    record_lookup(t10, "superChat.id"@, super_chat_found(root, 10))
}

/// Seconds that can be turned into milliseconds within `i64`.
pub open spec fn seconds_fit(v: Option<i64>) -> bool {
    match v {
        Some(s) => i64::MIN <= s * 1000 && s * 1000 <= i64::MAX,
        None => true,
    }
}

pub open spec fn to_millis(v: Option<i64>) -> Option<i64> {
    match v {
        Some(s) => Some((s * 1000) as i64),
        None => None,
    }
}

/// The start and end times of a super chat convert to milliseconds.
pub open spec fn super_chat_times_fit(root: JsonValue) -> bool {
    &&& seconds_fit(i64_of(found_value(super_chat_found(root, 6))))
    &&& seconds_fit(i64_of(found_value(super_chat_found(root, 7))))
}

/// `e` is the event that a super-chat notification `root` with command `cmd` gives.
pub open spec fn is_super_chat_event(e: ParsedNotificationEvent, cmd: Seq<char>, root: JsonValue) -> bool {
    let start = i64_of(found_value(super_chat_found(root, 6)));
    let id = text_or_empty(found_value(super_chat_found(root, 10)));
    &&& e.cmd@ == cmd
    &&& e.raw_json == root
    &&& e.raw.content@ == text_or_empty(found_value(super_chat_found(root, 0)))
    &&& e.raw.uid == uid_of(found_value(super_chat_found(root, 1)))
    &&& e.raw.nickname@ == text_or_empty(found_value(super_chat_found(root, 2)))
    &&& e.raw.user_level == level_or_zero(found_value(super_chat_found(root, 3)), 100)
    &&& e.raw.fan_level == level_or_zero(found_value(super_chat_found(root, 4)), 120)
    &&& e.raw.guard_type == level_or_zero(found_value(super_chat_found(root, 5)), 3)
    &&& e.raw.message_type == MessageType::SuperChat
    &&& e.raw.timestamp_ms is None
    &&& e.raw.timestamp == start
    &&& e.raw.super_chat matches Some(sc) && {
        &&& (if id.len() == 0 {
            sc.id is None
        } else {
            sc.id matches Some(t) && t@ == id
        })
        &&& sc.price == u64_of(found_value(super_chat_found(root, 9)))
        &&& sc.start_time_ms == to_millis(start)
        &&& sc.end_time_ms == to_millis(i64_of(found_value(super_chat_found(root, 7))))
        &&& sc.duration_sec == u64_of(found_value(super_chat_found(root, 8)))
    }
    &&& trail_of(e.confirmed_paths@, e.warnings@) == super_chat_trail(root)
}

fn millis_of(v: Option<i64>) -> (r: Option<i64>)
    requires
        seconds_fit(v),
    ensures
        r == to_millis(v),
{
    match v {
        Some(s) => Some(s * 1000),
        None => None,
    }
}

/// Whether the super-chat times of `raw_json` convert to milliseconds, which
/// reading it as a super chat requires.
pub fn super_chat_times_in_range(raw_json: &JsonValue) -> (r: bool)
    ensures
        r == super_chat_times_fit(*raw_json),
{
    let mut confirmed_paths: Vec<ConfirmedPath> = Vec::new();
    let mut warnings: Vec<String> = Vec::new();
    let start_paths: [&str; 2] = ["data.start_time", "data.ts"];
    assert(strs_view(start_paths@) =~= super_chat_paths(6));
    let start = i64_from_candidates(
        raw_json,
        "timestamp",
        &start_paths,
        &mut confirmed_paths,
        &mut warnings,
    );
    let end_paths: [&str; 1] = ["data.end_time"];
    assert(strs_view(end_paths@) =~= super_chat_paths(7));
    let end = i64_from_candidates(
        raw_json,
        "superChat.endTime",
        &end_paths,
        &mut confirmed_paths,
        &mut warnings,
    );
    seconds_in_range(start) && seconds_in_range(end)
}

fn seconds_in_range(v: Option<i64>) -> (r: bool)
    ensures
        r == seconds_fit(v),
{
    match v {
        Some(s) => -9_223_372_036_854_775 <= s && s <= 9_223_372_036_854_775,
        None => true,
    }
}

/// Reads a super-chat notification.
pub fn parse_super_chat_event(cmd: String, raw_json: JsonValue) -> (r: Option<ParsedNotificationEvent>)
    requires
        super_chat_times_fit(raw_json),
    ensures
        r matches Some(e) && is_super_chat_event(e, cmd@, raw_json),
{
    let mut confirmed_paths: Vec<ConfirmedPath> = Vec::new();
    let mut warnings: Vec<String> = Vec::new();
    assert(trail_of(confirmed_paths@, warnings@) == empty_trail()) by {
        assert(confirmed_view(confirmed_paths@) =~= Seq::empty());
        assert(texts_view(warnings@) =~= Seq::empty());
    }
    let content_paths: [&str; 1] = ["data.message"];
    assert(strs_view(content_paths@) =~= super_chat_paths(0));
    let content = string_from_candidates(
        &raw_json,
        "content",
        &content_paths,
        &mut confirmed_paths,
        &mut warnings,
    );
    let uid_paths: [&str; 1] = ["data.uid"];
    assert(strs_view(uid_paths@) =~= super_chat_paths(1));
    let uid = uid_from_candidates(&raw_json, "uid", &uid_paths, &mut confirmed_paths, &mut warnings);
    let nickname_paths: [&str; 1] = ["data.user_info.uname"];
    assert(strs_view(nickname_paths@) =~= super_chat_paths(2));
    let nickname = string_from_candidates(
        &raw_json,
        "nickname",
        &nickname_paths,
        &mut confirmed_paths,
        &mut warnings,
    );
    let user_level_paths: [&str; 1] = ["data.user_info.user_level"];
    assert(strs_view(user_level_paths@) =~= super_chat_paths(3));
    let user_level = u8_from_candidates(
        &raw_json,
        "userLevel",
        &user_level_paths,
        100,
        &mut confirmed_paths,
        &mut warnings,
    );
    let fan_level_paths: [&str; 1] = ["data.medal_info.medal_level"];
    assert(strs_view(fan_level_paths@) =~= super_chat_paths(4));
    let fan_level = u8_from_candidates(
        &raw_json,
        "fanLevel",
        &fan_level_paths,
        120,
        &mut confirmed_paths,
        &mut warnings,
    );
    let guard_paths: [&str; 2] = ["data.medal_info.guard_level", "data.user_info.guard_level"];
    assert(strs_view(guard_paths@) =~= super_chat_paths(5));
    let guard_type = u8_from_candidates(
        &raw_json,
        "guardType",
        &guard_paths,
        3,
        &mut confirmed_paths,
        &mut warnings,
    );
    let start_paths: [&str; 2] = ["data.start_time", "data.ts"];
    assert(strs_view(start_paths@) =~= super_chat_paths(6));
    let start_time = i64_from_candidates(
        &raw_json,
        "timestamp",
        &start_paths,
        &mut confirmed_paths,
        &mut warnings,
    );
    let end_paths: [&str; 1] = ["data.end_time"];
    assert(strs_view(end_paths@) =~= super_chat_paths(7));
    let end_time = i64_from_candidates(
        &raw_json,
        "superChat.endTime",
        &end_paths,
        &mut confirmed_paths,
        &mut warnings,
    );
    let duration_paths: [&str; 1] = ["data.time"];
    assert(strs_view(duration_paths@) =~= super_chat_paths(8));
    let duration_sec = u64_from_candidates(
        &raw_json,
        "superChat.durationSec",
        &duration_paths,
        &mut confirmed_paths,
        &mut warnings,
    );
    let price_paths: [&str; 1] = ["data.price"];
    assert(strs_view(price_paths@) =~= super_chat_paths(9));
    let price = u64_from_candidates(
        &raw_json,
        "superChat.price",
        &price_paths,
        &mut confirmed_paths,
        &mut warnings,
    );
    let id_paths: [&str; 2] = ["data.id", "data.token"];
    assert(strs_view(id_paths@) =~= super_chat_paths(10));
    let id = string_from_candidates(
        &raw_json,
        "superChat.id",
        &id_paths,
        &mut confirmed_paths,
        &mut warnings,
    );
    let id = if id.as_str().unicode_len() == 0 {
        None
    } else {
        Some(id)
    };
    let start_time_ms = millis_of(start_time);
    let end_time_ms = millis_of(end_time);
    Some(
        ParsedNotificationEvent {
            cmd,
            raw: IncomingDanmuRaw {
                content,
                uid,
                nickname,
                user_level,
                fan_level,
                guard_type,
                message_type: MessageType::SuperChat,
                super_chat: Some(
                    SuperChatInfo { id, price, start_time_ms, end_time_ms, duration_sec },
                ),
                timestamp_ms: None,
                timestamp: start_time,
            },
            confirmed_paths,
            warnings,
            raw_json,
        },
    )
}

/// The command of a notification: its `cmd` text (empty when missing or not
/// a string) up to the first ':'.
pub open spec fn cmd_prefix(s: Seq<char>) -> Seq<char>
    decreases s.len(),
{
    if s.len() == 0 || s[0] == ':' {
        Seq::empty()
    } else {
        seq![s[0]] + cmd_prefix(s.drop_first())
    }
}

pub open spec fn spec_notification_cmd(root: JsonValue) -> Seq<char> {
    match spec_object_get(root, "cmd"@) {
        Some(JsonValue::String(s)) => cmd_prefix(s@),
        _ => Seq::empty(),
    }
}

/// The command of a notification, up to its first `:`.
pub fn notification_cmd(raw_json: &JsonValue) -> (r: String)
    ensures
        r@ == spec_notification_cmd(*raw_json),
{
    let text = match object_get(raw_json, "cmd") {
        Some(JsonValue::String(s)) => s.as_str(),
        _ => {
            return String::new();
        },
    };
    assert(spec_notification_cmd(*raw_json) == cmd_prefix(text@));
    let chars = chars_of(text);
    let mut out = String::new();
    let mut i: usize = 0;
    assert(chars@.skip(0) =~= chars@);
    while i < chars.len()
        invariant
            i <= chars@.len(),
            chars@ == text@,
            spec_notification_cmd(*raw_json) == cmd_prefix(text@),
            cmd_prefix(text@) == out@ + cmd_prefix(chars@.skip(i as int)),
        decreases chars@.len() - i,
    {
        let ghost rest = chars@.skip(i as int);
        assert(rest[0] == chars@[i as int]);
        assert(rest.drop_first() =~= chars@.skip(i + 1));
        if chars[i] == ':' {
            assert(cmd_prefix(rest) == Seq::<char>::empty());
            assert(out@ + Seq::<char>::empty() =~= out@);
            return out;
        }
        let ghost before = out@;
        push_char(&mut out, chars[i]);
        assert(before + cmd_prefix(rest) =~= out@ + cmd_prefix(chars@.skip(i + 1)));
        i += 1;
    }
    assert(chars@.skip(i as int) =~= Seq::<char>::empty());
    assert(out@ + Seq::<char>::empty() =~= out@);
    out
}

/// Reads a notification body: danmaku and super-chat notifications become
/// events, any other command gives nothing.
pub fn parse_notification_event(raw_json: JsonValue) -> (r: Option<ParsedNotificationEvent>)
    requires
        spec_notification_cmd(raw_json) == "SUPER_CHAT_MESSAGE"@ ==> super_chat_times_fit(raw_json),
    ensures
        spec_notification_cmd(raw_json) == "DANMU_MSG"@ ==> (r matches Some(e) && is_danmu_event(
            e,
            "DANMU_MSG"@,
            raw_json,
        )),
        spec_notification_cmd(raw_json) == "SUPER_CHAT_MESSAGE"@ ==> (r matches Some(e)
            && is_super_chat_event(e, "SUPER_CHAT_MESSAGE"@, raw_json)),
        spec_notification_cmd(raw_json) != "DANMU_MSG"@ && spec_notification_cmd(raw_json)
            != "SUPER_CHAT_MESSAGE"@ ==> r is None,
{
    let cmd = notification_cmd(&raw_json);
    proof {
        reveal_strlit("DANMU_MSG");
        reveal_strlit("SUPER_CHAT_MESSAGE");
        assert("DANMU_MSG"@.len() != "SUPER_CHAT_MESSAGE"@.len());
    }
    if str_eq(cmd.as_str(), "DANMU_MSG") {
        parse_danmu_event(cmd, raw_json)
    } else if str_eq(cmd.as_str(), "SUPER_CHAT_MESSAGE") {
        parse_super_chat_event(cmd, raw_json)
    } else {
        None
    }
}

/// `root` is a notification that becomes an event: a danmaku or a super chat.
pub open spec fn is_event_cmd(root: JsonValue) -> bool {
    spec_notification_cmd(root) == "DANMU_MSG"@ || spec_notification_cmd(root)
        == "SUPER_CHAT_MESSAGE"@
}

/// `e` is the event that notification `root` gives.
pub open spec fn event_from(e: ParsedNotificationEvent, root: JsonValue) -> bool {
    if spec_notification_cmd(root) == "DANMU_MSG"@ {
        is_danmu_event(e, "DANMU_MSG"@, root)
    } else {
        is_super_chat_event(e, "SUPER_CHAT_MESSAGE"@, root)
    }
}

/// The notification bodies, among those read as JSON, that become events, in order.
pub open spec fn event_roots(parsed: Seq<Option<JsonValue>>) -> Seq<JsonValue>
    decreases parsed.len(),
{
    if parsed.len() == 0 {
        Seq::empty()
    } else {
        let rest = event_roots(parsed.drop_last());
        match parsed.last() {
            Some(v) => if is_event_cmd(v) {
                rest.push(v)
            } else {
                rest
            },
            None => rest,
        }
    }
}

/// Every super chat among the bodies has times that convert to milliseconds.
pub open spec fn super_chat_times_fit_all(parsed: Seq<Option<JsonValue>>) -> bool {
    forall|i: int|
        0 <= i < parsed.len() ==> (#[trigger] parsed[i] matches Some(v) ==> (spec_notification_cmd(v)
            == "SUPER_CHAT_MESSAGE"@ ==> super_chat_times_fit(v)))
}

/// What one received frame holds for the overlay.
#[derive(Debug)]
pub struct FrameEvents {
    pub events: Vec<ParsedNotificationEvent>,
    pub heartbeat_response: bool,
    pub room_enter_response: bool,
    /// Notifications that are not danmaku or super chats, or not JSON.
    pub other_notifications: usize,
}

/// Sorts the notifications of a decoded frame, given as what reading each
/// body as JSON gave (`None` where it was not JSON): danmaku and super chats
/// become events, in order, and the others are counted.
pub fn frame_events(frame: &FramePackets, parsed: Vec<Option<JsonValue>>) -> (r: FrameEvents)
    requires
        super_chat_times_fit_all(parsed@),
    ensures
        r.heartbeat_response == frame.heartbeat_response,
        r.room_enter_response == frame.room_enter_response,
        r.events@.len() == event_roots(parsed@).len(),
        forall|k: int| 0 <= k < r.events@.len() ==> event_from(#[trigger] r.events@[k], event_roots(parsed@)[k]),
        r.other_notifications + r.events@.len() == parsed@.len(),
{
    let ghost all = parsed@;
    let n = parsed.len();
    let mut rest = parsed;
    let mut events: Vec<ParsedNotificationEvent> = Vec::new();
    let mut other: usize = 0;
    let mut i: usize = 0;
    while rest.len() > 0
        invariant
            rest@ == all.skip(i as int),
            all.len() == n,
            i <= all.len(),
            super_chat_times_fit_all(all),
            events@.len() == event_roots(all.take(i as int)).len(),
            forall|k: int| 0 <= k < events@.len() ==> event_from(#[trigger] events@[k], event_roots(all.take(i as int))[k]),
            other + events@.len() == i,
        decreases rest@.len(),
    {
        let ghost pre = all.take(i as int);
        let ghost cur = all.take(i + 1);
        assert(cur.drop_last() =~= pre);
        assert(rest@[0] == all[i as int]);
        assert(cur.last() == all[i as int]);
        let item = rest.remove(0);
        assert(rest@ =~= all.skip(i + 1));
        match item {
            Some(root) => {
                let ghost v = root;
                assert(all[i as int] == Some(v));
                let parsed_event = parse_notification_event(root);
                match parsed_event {
                    Some(e) => {
                        assert(is_event_cmd(v));
                        assert(event_roots(cur) == event_roots(pre).push(v));
                        events.push(e);
                    },
                    None => {
                        assert(!is_event_cmd(v));
                        other += 1;
                    },
                }
            },
            None => {
                other += 1;
            },
        }
        i += 1;
    }
    assert(all.take(i as int) =~= all);
    FrameEvents {
        events,
        heartbeat_response: frame.heartbeat_response,
        room_enter_response: frame.room_enter_response,
        other_notifications: other,
    }
}

/// The value at `path` when it is an unsigned integer.
pub open spec fn posint_at(root: JsonValue, path: Seq<char>) -> Option<u64> {
    match spec_value_at_path(root, path) {
        Some(JsonValue::Number(JsonNumber::PosInt(n))) => Some(n),
        _ => None,
    }
}

/// The value at `path` when it is a string.
pub open spec fn string_value_at(root: JsonValue, path: Seq<char>) -> Option<Seq<char>> {
    match spec_value_at_path(root, path) {
        Some(JsonValue::String(s)) => Some(s@),
        _ => None,
    }
}

/// A danmaku notification's fields come from their places in `info`: the
/// sender id is `info.2.0` (kept as given, 0 when missing), the nickname
/// `info.2.1`, the content `info.1`, the fan level `info.3.0` (at most
/// 120), the guard type `info.7` (at most 3), the user level `info.16.0`
/// (at most 100), and the time `info.0.4`, read as milliseconds from
/// 10000000000 on and as seconds below.
pub proof fn law_danmu_fields(e: ParsedNotificationEvent, cmd: Seq<char>, root: JsonValue)
    requires
        is_danmu_event(e, cmd, root),
    ensures
        spec_value_at_path(root, "info.2.0"@) matches Some(JsonValue::Number(n)) ==> e.raw.uid
            == UidValue::Number(n),
        spec_value_at_path(root, "info.2.0"@) matches Some(JsonValue::String(s)) ==> e.raw.uid
            == UidValue::Text(s),
        spec_value_at_path(root, "info.2.0"@) is None ==> e.raw.uid == UidValue::Number(
            JsonNumber::PosInt(0),
        ),
        string_value_at(root, "info.2.1"@) matches Some(s) ==> e.raw.nickname@ == s,
        string_value_at(root, "info.1"@) matches Some(s) ==> e.raw.content@ == s,
        posint_at(root, "info.3.0"@) matches Some(n) ==> e.raw.fan_level == (if n <= 120 {
            n
        } else {
            120
        }),
        posint_at(root, "info.7"@) matches Some(n) ==> e.raw.guard_type == (if n <= 3 {
            n
        } else {
            3
        }),
        posint_at(root, "info.16.0"@) matches Some(n) ==> e.raw.user_level == (if n <= 100 {
            n
        } else {
            100
        }),
        posint_at(root, "info.0.4"@) matches Some(n) ==> (n <= i64::MAX ==> (if n >= 10_000_000_000 {
            e.raw.timestamp_ms == Some(n as i64) && e.raw.timestamp is None
        } else {
            e.raw.timestamp_ms is None && e.raw.timestamp == Some(n as i64)
        })),
        e.raw.message_type == MessageType::Danmu,
        e.raw.super_chat is None,
{
    reveal_with_fuel(first_found, 2);
    assert(danmu_paths(0) =~= seq!["info.1"@, "info.0.15.extra.content"@]);
    assert(danmu_paths(1) =~= seq!["info.2.0"@]);
    assert(danmu_paths(2) =~= seq!["info.2.1"@]);
    assert(danmu_paths(3) =~= seq!["info.16.0"@, "info.4.0"@, "info.2.16.0"@]);
    assert(danmu_paths(4) =~= seq!["info.3.0"@]);
    assert(danmu_paths(5) =~= seq!["info.7"@]);
    assert(danmu_paths(6) =~= seq!["info.0.4"@]);
    assert(seq!["info.2.0"@].drop_first() =~= Seq::<Seq<char>>::empty());
}

/// A super chat's fields come from their places in `data`: the sender id is
/// `data.uid` (kept as given, 0 when missing), the content `data.message`,
/// the nickname `data.user_info.uname`, the price `data.price`, the
/// duration `data.time`, the user level `data.user_info.user_level` (at
/// most 100) and the fan level `data.medal_info.medal_level` (at most 120).
pub proof fn law_super_chat_fields(e: ParsedNotificationEvent, cmd: Seq<char>, root: JsonValue)
    requires
        is_super_chat_event(e, cmd, root),
    ensures
        spec_value_at_path(root, "data.uid"@) matches Some(JsonValue::Number(n)) ==> e.raw.uid
            == UidValue::Number(n),
        spec_value_at_path(root, "data.uid"@) matches Some(JsonValue::String(s)) ==> e.raw.uid
            == UidValue::Text(s),
        spec_value_at_path(root, "data.uid"@) is None ==> e.raw.uid == UidValue::Number(
            JsonNumber::PosInt(0),
        ),
        string_value_at(root, "data.message"@) matches Some(s) ==> e.raw.content@ == s,
        string_value_at(root, "data.user_info.uname"@) matches Some(s) ==> e.raw.nickname@ == s,
        posint_at(root, "data.price"@) matches Some(n) ==> (e.raw.super_chat matches Some(sc)
            && sc.price == Some(n)),
        posint_at(root, "data.time"@) matches Some(n) ==> (e.raw.super_chat matches Some(sc)
            && sc.duration_sec == Some(n)),
        posint_at(root, "data.user_info.user_level"@) matches Some(n) ==> e.raw.user_level == (if n
            <= 100 {
            n
        } else {
            100
        }),
        posint_at(root, "data.medal_info.medal_level"@) matches Some(n) ==> e.raw.fan_level == (if n
            <= 120 {
            n
        } else {
            120
        }),
        e.raw.message_type == MessageType::SuperChat,
        e.raw.timestamp_ms is None,
{
    reveal_with_fuel(first_found, 2);
    assert(super_chat_paths(0) =~= seq!["data.message"@]);
    assert(super_chat_paths(1) =~= seq!["data.uid"@]);
    assert(super_chat_paths(2) =~= seq!["data.user_info.uname"@]);
    assert(super_chat_paths(3) =~= seq!["data.user_info.user_level"@]);
    assert(super_chat_paths(4) =~= seq!["data.medal_info.medal_level"@]);
    assert(super_chat_paths(8) =~= seq!["data.time"@]);
    assert(super_chat_paths(9) =~= seq!["data.price"@]);
    assert(seq!["data.uid"@].drop_first() =~= Seq::<Seq<char>>::empty());
}

} // verus!
