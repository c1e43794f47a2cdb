//! Incoming danmaku records, normalized messages and the snapshots that the
//! overlay renders.

use vstd::prelude::*;
use crate::clock::now_ms;
use crate::json::{number_text, JsonNumber};
use crate::text::{decimal, push_decimal, push_str};

verus! {

#[derive(Clone, Copy, Debug, PartialEq, Eq, Structural)]
pub enum MessageType {
    Danmu,
    SuperChat,
}

impl Default for MessageType {
    fn default() -> (r: Self)
        ensures
            r == MessageType::Danmu,
    {
        MessageType::Danmu
    }
}

#[derive(Clone, Debug, PartialEq, Eq)]
pub struct SuperChatInfo {
    pub id: Option<String>,
    pub price: Option<u64>,
    pub start_time_ms: Option<i64>,
    pub end_time_ms: Option<i64>,
    pub duration_sec: Option<u64>,
}

/// What a sender's id was given as: text, a number, or anything else.
#[derive(Clone, Debug)]
pub enum UidValue {
    Text(String),
    Number(JsonNumber),
    Other,
}

#[derive(Clone, Debug)]
pub struct IncomingDanmuRaw {
    pub content: String,
    pub uid: UidValue,
    pub nickname: String,
    pub user_level: u8,
    pub fan_level: u8,
    pub guard_type: u8,
    pub message_type: MessageType,
    pub super_chat: Option<SuperChatInfo>,
    pub timestamp_ms: Option<i64>,
    pub timestamp: Option<i64>,
}

#[derive(Clone, Debug)]
pub struct DanmuMessage {
    pub message_id: u64,
    pub content: String,
    pub uid: String,
    pub nickname: String,
    pub user_level: u8,
    pub fan_level: u8,
    pub guard_type: u8,
    pub message_type: MessageType,
    pub super_chat: Option<SuperChatInfo>,
    pub timestamp_ms: i64,
    pub read: bool,
}

#[derive(Clone, Debug)]
pub struct PersonPanelSnapshot {
    pub selected_uid: Option<String>,
    pub selected_nickname: Option<String>,
    pub anchor_message_id: Option<u64>,
    pub hover_frozen: bool,
    pub visible_messages: Vec<DanmuMessage>,
    pub hidden_newer_count: usize,
}

#[derive(Clone, Debug)]
pub struct AppSnapshot {
    pub connected: bool,
    pub connection_status: String,
    pub main_visible: Vec<DanmuMessage>,
    pub main_hidden_newer_count: usize,
    pub person_panel: PersonPanelSnapshot,
}

pub fn clone_text(s: &Option<String>) -> (r: Option<String>)
    ensures
        r == *s,
{
    match s {
        Some(t) => Some(t.clone()),
        None => None,
    }
}

impl SuperChatInfo {
    /// A copy equal to this record.
    pub fn duplicate(&self) -> (r: Self)
        ensures
            r == *self,
    {
        SuperChatInfo {
            id: clone_text(&self.id),
            price: self.price,
            start_time_ms: self.start_time_ms,
            end_time_ms: self.end_time_ms,
            duration_sec: self.duration_sec,
        }
    }
}

pub fn clone_super_chat(s: &Option<SuperChatInfo>) -> (r: Option<SuperChatInfo>)
    ensures
        r == *s,
{
    match s {
        Some(t) => Some(t.duplicate()),
        None => None,
    }
}

impl DanmuMessage {
    /// A copy equal to this message.
    pub fn duplicate(&self) -> (r: Self)
        ensures
            r == *self,
    {
        DanmuMessage {
            message_id: self.message_id,
            content: self.content.clone(),
            uid: self.uid.clone(),
            nickname: self.nickname.clone(),
            user_level: self.user_level,
            fan_level: self.fan_level,
            guard_type: self.guard_type,
            message_type: self.message_type,
            super_chat: clone_super_chat(&self.super_chat),
            timestamp_ms: self.timestamp_ms,
            read: self.read,
        }
    }
}

/// Longest content, in characters, of a message of this type.
pub open spec fn content_limit(message_type: MessageType) -> nat {
    match message_type {
        MessageType::SuperChat => 120,
        MessageType::Danmu => 40,
    }
}

/// The sender id as text: a string as it is, a number as its decimal text.
pub open spec fn uid_text(uid: UidValue) -> Option<Seq<char>> {
    match uid {
        UidValue::Text(s) => Some(s@),
        UidValue::Number(n) => Some(number_text(n)),
        UidValue::Other => None,
    }
}

/// Why a raw record is refused, checked in this order; `None` when it is accepted.
pub open spec fn normalize_error(raw: IncomingDanmuRaw) -> Option<Seq<char>> {
    let len = raw.content@.len();
    let max = content_limit(raw.message_type);
    if !(1 <= len && len <= max) {
        Some("content length must be between 1 and "@ + decimal(max) + " characters"@)
    } else if raw.user_level > 100 {
        Some("userLevel must be between 0 and 100"@)
    } else if raw.fan_level > 120 {
        Some("fanLevel must be between 0 and 120"@)
    } else if raw.guard_type > 3 {
        Some("guardType must be between 0 and 3"@)
    } else if uid_text(raw.uid) is None {
        Some("uid must be a string or number"@)
    } else {
        None
    }
}

/// Seconds are turned into milliseconds only where they fit in `i64`.
pub open spec fn timestamp_in_range(raw: IncomingDanmuRaw) -> bool {
    raw.timestamp_ms is Some || raw.timestamp is None || (i64::MIN <= raw.timestamp->0 * 1000
        && raw.timestamp->0 * 1000 <= i64::MAX)
}

/// The message time: milliseconds if given, else seconds times 1000, else `now`.
pub open spec fn message_time(raw: IncomingDanmuRaw, now: int) -> int {
    match raw.timestamp_ms {
        Some(ms) => ms as int,
        None => match raw.timestamp {
            Some(secs) => secs * 1000,
            None => now,
        },
    }
}

/// `m` is the unread message that an accepted `raw` becomes under id `id`,
/// stamped with time `time`.
pub open spec fn normalized_as(raw: IncomingDanmuRaw, id: u64, time: int, m: DanmuMessage) -> bool {
    &&& m.message_id == id
    &&& m.content == raw.content
    &&& Some(m.uid@) == uid_text(raw.uid)
    &&& m.nickname == raw.nickname
    &&& m.user_level == raw.user_level
    &&& m.fan_level == raw.fan_level
    &&& m.guard_type == raw.guard_type
    &&& m.message_type == raw.message_type
    &&& m.super_chat == raw.super_chat
    &&& m.timestamp_ms == time
    &&& !m.read
}

fn message_error(text: &str) -> (r: String)
    ensures
        r@ == text@,
{
    String::from_str(text)
}

/// Why `raw` is refused, or `None` when it is accepted.
pub fn incoming_error(raw: &IncomingDanmuRaw) -> (r: Option<String>)
    ensures
        r matches Some(e) ==> normalize_error(*raw) == Some(e@),
        r is None ==> normalize_error(*raw) is None,
{
    let content_len = raw.content.as_str().unicode_len();
    let max_content_len: u64 = match raw.message_type {
        MessageType::SuperChat => 120,
        MessageType::Danmu => 40,
    };
    if !(1 <= content_len && content_len as u64 <= max_content_len) {
        let mut e = String::from_str("content length must be between 1 and ");
        push_decimal(&mut e, max_content_len);
        push_str(&mut e, " characters");
        return Some(e);
    }
    if raw.user_level > 100 {
        return Some(message_error("userLevel must be between 0 and 100"));
    }
    if raw.fan_level > 120 {
        return Some(message_error("fanLevel must be between 0 and 120"));
    }
    if raw.guard_type > 3 {
        return Some(message_error("guardType must be between 0 and 3"));
    }
    match &raw.uid {
        UidValue::Other => Some(message_error("uid must be a string or number")),
        _ => None,
    }
}

/// Whether the seconds of `raw`, when they are its only time, convert to
/// milliseconds within `i64`.
pub fn time_converts(raw: &IncomingDanmuRaw) -> (r: bool)
    ensures
        r == timestamp_in_range(*raw),
{
    match (raw.timestamp_ms, raw.timestamp) {
        (None, Some(seconds)) => seconds.checked_mul(1000).is_some(),
        _ => true,
    }
}

/// Validates a raw record and turns it into message `message_id`; `now_ms`
/// stands for the time when the record carries none.
pub fn normalize_incoming_at(raw: IncomingDanmuRaw, message_id: u64, now_ms: i64) -> (r: Result<
    DanmuMessage,
    String,
>)
    requires
        normalize_error(raw) is None ==> timestamp_in_range(raw),
    ensures
        r is Err <==> normalize_error(raw) is Some,
        r matches Err(e) ==> normalize_error(raw) == Some(e@),
        r matches Ok(m) ==> normalized_as(raw, message_id, message_time(raw, now_ms as int), m),
{
    match incoming_error(&raw) {
        Some(e) => {
            return Err(e);
        },
        None => {},
    }
    let uid = match &raw.uid {
        UidValue::Text(value) => value.clone(),
        UidValue::Number(value) => value.to_text(),
        UidValue::Other => {
            return Err(message_error("uid must be a string or number"));
        },
    };
    let timestamp_ms: i64 = match raw.timestamp_ms {
        Some(ms) => ms,
        None => match raw.timestamp {
            Some(seconds) => seconds * 1000,
            None => now_ms,
        },
    };
    Ok(DanmuMessage {
        message_id,
        content: raw.content,
        uid,
        nickname: raw.nickname,
        user_level: raw.user_level,
        fan_level: raw.fan_level,
        guard_type: raw.guard_type,
        message_type: raw.message_type,
        super_chat: raw.super_chat,
        timestamp_ms,
        read: false,
    })
}

/// Validates a raw record and turns it into message `message_id`; a record
/// without any time is stamped with the clock's current time.
pub fn normalize_incoming(raw: IncomingDanmuRaw, message_id: u64) -> (r: Result<
    DanmuMessage,
    String,
>)
    requires
        normalize_error(raw) is None ==> timestamp_in_range(raw),
    ensures
        r is Err <==> normalize_error(raw) is Some,
        r matches Err(e) ==> normalize_error(raw) == Some(e@),
        r matches Ok(m) ==> exists|now: int| normalized_as(raw, message_id, message_time(raw, now), m),
        r matches Ok(m) ==> (raw.timestamp_ms is Some || raw.timestamp is Some) ==> normalized_as(
            raw,
            message_id,
            message_time(raw, 0),
            m,
        ),
{
    let now: i64 = if raw.timestamp_ms.is_none() && raw.timestamp.is_none() {
        now_ms()
    } else {
        0
    };
    normalize_incoming_at(raw, message_id, now)
}

/// A record is accepted exactly when its content has 1 to 120 characters
/// for a super chat (1 to 40 for a danmaku), its user level is at most 100,
/// its fan level at most 120, its guard type at most 3 and its sender id is
/// text or a number; content that is too long is refused with the limit of
/// its type.
pub proof fn law_record_acceptance(raw: IncomingDanmuRaw)
    ensures
        normalize_error(raw) is None <==> ({
            let len = raw.content@.len();
            &&& 1 <= len
            &&& (raw.message_type == MessageType::SuperChat ==> len <= 120)
            &&& (raw.message_type == MessageType::Danmu ==> len <= 40)
            &&& raw.user_level <= 100
            &&& raw.fan_level <= 120
            &&& raw.guard_type <= 3
            &&& !(raw.uid is Other)
        }),
        raw.message_type == MessageType::SuperChat && raw.content@.len() > 120 ==> normalize_error(raw)
            == Some("content length must be between 1 and 120 characters"@),
        raw.message_type == MessageType::Danmu && raw.content@.len() > 40 ==> normalize_error(raw)
            == Some("content length must be between 1 and 40 characters"@),
{
    reveal_strlit("content length must be between 1 and ");
    reveal_strlit(" characters");
    reveal_strlit("content length must be between 1 and 120 characters");
    reveal_strlit("content length must be between 1 and 40 characters");
    assert(decimal(120) =~= seq!['1', '2', '0']) by {
        reveal_with_fuel(decimal, 3);
    }
    assert(decimal(40) =~= seq!['4', '0']) by {
        reveal_with_fuel(decimal, 2);
    }
    assert("content length must be between 1 and "@ + seq!['1', '2', '0'] + " characters"@
        =~= "content length must be between 1 and 120 characters"@);
    assert("content length must be between 1 and "@ + seq!['4', '0'] + " characters"@
        =~= "content length must be between 1 and 40 characters"@);
}

/// An accepted record becomes an unread message with the given id that
/// keeps its content, nickname, levels and type; its sender id becomes text
/// (a number as its decimal digits), and its time is the milliseconds when
/// given, else the seconds times 1000.
pub proof fn law_normalized_message(raw: IncomingDanmuRaw, id: u64, now: int, m: DanmuMessage)
    requires
        normalized_as(raw, id, message_time(raw, now), m),
    ensures
        m.message_id == id,
        !m.read,
        m.content == raw.content,
        m.nickname == raw.nickname,
        m.user_level == raw.user_level && m.fan_level == raw.fan_level && m.guard_type
            == raw.guard_type,
        m.message_type == raw.message_type,
        m.super_chat == raw.super_chat,
        raw.uid matches UidValue::Text(s) ==> m.uid@ == s@,
        raw.uid matches UidValue::Number(JsonNumber::PosInt(n)) ==> m.uid@ == decimal(n as nat),
        raw.timestamp_ms matches Some(ms) ==> m.timestamp_ms == ms,
        raw.timestamp_ms is None ==> (raw.timestamp matches Some(secs) ==> m.timestamp_ms == secs
            * 1000),
        raw.timestamp_ms is None && raw.timestamp is None ==> m.timestamp_ms == now,
{
}

} // verus!
