//! The connect API: which URLs it accepts, how its JSON reply becomes the
//! token, viewer, room and WebSocket address of a live room, and the cache
//! that remembers the last request and reply.

use std::time::{Duration, Instant};
use url::Url;
use vstd::prelude::*;
use crate::clock::{duration_from_secs, duration_of_secs};
use crate::events::strs_view;
use crate::json::{
    spec_value_at_path, spec_value_to_string, spec_value_to_u64, value_at_path, value_to_string,
    value_to_u64, JsonValue,
};
use crate::text::{chars_of, push_str, str_eq};

verus! {

/// The scheme that `url::Url::parse` finds in `text`, lower-cased, or `None`
/// when the text does not parse as a URL.
pub uninterp spec fn url_scheme(text: Seq<char>) -> Option<Seq<char>>;

/// `url::Url::parse` followed by `Url::scheme`: the scheme of `value` as a
/// URL, or `None` when it does not parse. The result is stated to be
/// `url_scheme` of the text; what that is, is not stated.
#[verifier::external_body]
fn parse_url_scheme(value: &str) -> (r: Option<String>)
    ensures
        r matches Some(s) ==> url_scheme(value@) == Some(s@),
        r is None ==> url_scheme(value@) is None,
{
    match Url::parse(value) {
        Ok(url) => Some(url.scheme().to_string()),
        Err(_) => None,
    }
}

/// `text` parses as a URL whose scheme is `http` or `https`.
pub open spec fn is_http_url(text: Seq<char>) -> bool {
    url_scheme(text) == Some("http"@) || url_scheme(text) == Some("https"@)
}

/// `text` parses as a URL whose scheme is `ws` or `wss`.
pub open spec fn is_ws_url_text(text: Seq<char>) -> bool {
    url_scheme(text) == Some("ws"@) || url_scheme(text) == Some("wss"@)
}

/// Whether the connect API address is an `http` or `https` URL.
pub fn is_http_connect_api_url(value: &str) -> (r: bool)
    ensures
        r == is_http_url(value@),
{
    match parse_url_scheme(value) {
        Some(scheme) => str_eq(scheme.as_str(), "http") || str_eq(scheme.as_str(), "https"),
        None => false,
    }
}

/// Whether a WebSocket address is a `ws` or `wss` URL.
pub fn is_ws_url(value: &str) -> (r: bool)
    ensures
        r == is_ws_url_text(value@),
{
    match parse_url_scheme(value) {
        Some(scheme) => str_eq(scheme.as_str(), "ws") || str_eq(scheme.as_str(), "wss"),
        None => false,
    }
}

/// The characters that Unicode's `White_Space` property covers, which is
/// what `char::is_whitespace` and `str::trim` go by.
pub open spec fn is_white_space(c: char) -> bool {
    ||| ('\u{9}' <= c && c <= '\u{d}')
    ||| c == ' '
    ||| c == '\u{85}'
    ||| c == '\u{a0}'
    ||| c == '\u{1680}'
    ||| ('\u{2000}' <= c && c <= '\u{200a}')
    ||| c == '\u{2028}'
    ||| c == '\u{2029}'
    ||| c == '\u{202f}'
    ||| c == '\u{205f}'
    ||| c == '\u{3000}'
}

/// `text.trim()` is empty: every character of it is white space.
pub open spec fn blank(text: Seq<char>) -> bool {
    forall|i: int| 0 <= i < text.len() ==> #[trigger] is_white_space(text[i])
}

fn char_is_white_space(c: char) -> (r: bool)
    ensures
        r == is_white_space(c),
{
    ('\u{9}' <= c && c <= '\u{d}') || c == ' ' || c == '\u{85}' || c == '\u{a0}' || c == '\u{1680}'
        || ('\u{2000}' <= c && c <= '\u{200a}') || c == '\u{2028}' || c == '\u{2029}' || c
        == '\u{202f}' || c == '\u{205f}' || c == '\u{3000}'
}

/// Whether `text` holds nothing but white space (`text.trim().is_empty()`).
pub fn is_blank(text: &str) -> (r: bool)
    ensures
        r == blank(text@),
{
    let chars = chars_of(text);
    let mut i: usize = 0;
    while i < chars.len()
        invariant
            i <= chars@.len(),
            chars@ == text@,
            forall|k: int| 0 <= k < i ==> #[trigger] is_white_space(text@[k]),
        decreases chars@.len() - i,
    {
        if !char_is_white_space(chars[i]) {
            return false;
        }
        i += 1;
    }
    true
}

/// The first string among `items` that is a WebSocket URL.
pub open spec fn first_ws_in(items: Seq<JsonValue>) -> Option<Seq<char>>
    decreases items.len(),
{
    if items.len() == 0 {
        None
    } else {
        match items[0] {
            JsonValue::String(s) => if is_ws_url_text(s@) {
                Some(s@)
            } else {
                first_ws_in(items.drop_first())
            },
            _ => first_ws_in(items.drop_first()),
        }
    }
}

/// A WebSocket URL held by `v`: `v` itself when it is such a string, the
/// first such string when `v` is an array.
pub open spec fn spec_first_ws_url(v: JsonValue) -> Option<Seq<char>> {
    match v {
        JsonValue::String(s) => if is_ws_url_text(s@) {
            Some(s@)
        } else {
            None
        },
        JsonValue::Array { items, text } => first_ws_in(items@),
        _ => None,
    }
}

pub fn first_ws_url(value: &JsonValue) -> (r: Option<String>)
    ensures
        r matches Some(s) ==> spec_first_ws_url(*value) == Some(s@),
        r is None ==> spec_first_ws_url(*value) is None,
{
    match value {
        JsonValue::String(s) => {
            if is_ws_url(s.as_str()) {
                Some(s.clone())
            } else {
                None
            }
        },
        JsonValue::Array { items, text } => {
            let mut i: usize = 0;
            assert(items@.skip(0) =~= items@);
            while i < items.len()
                invariant
                    i <= items@.len(),
                    *value == (JsonValue::Array { items: *items, text: *text }),
                    first_ws_in(items@) == first_ws_in(items@.skip(i as int)),
                decreases items@.len() - i,
            {
                let ghost rest = items@.skip(i as int);
                assert(rest[0] == items@[i as int]);
                assert(rest.drop_first() =~= items@.skip(i + 1));
                match &items[i] {
                    JsonValue::String(s) => {
                        if is_ws_url(s.as_str()) {
                            return Some(s.clone());
                        }
                    },
                    _ => {},
                }
                i += 1;
            }
            assert(items@.skip(i as int) =~= Seq::<JsonValue>::empty());
            None
        },
        _ => None,
    }
}

/// The text of the first of `paths` that leads to a string, number or boolean.
pub open spec fn string_at(root: JsonValue, paths: Seq<Seq<char>>) -> Option<Seq<char>>
    decreases paths.len(),
{
    if paths.len() == 0 {
        None
    } else {
        match spec_value_at_path(root, paths[0]) {
            Some(v) => match spec_value_to_string(v) {
                Some(s) => Some(s),
                None => string_at(root, paths.drop_first()),
            },
            None => string_at(root, paths.drop_first()),
        }
    }
}

/// The number read from the first of `paths` that leads to an unsigned integer.
pub open spec fn u64_at(root: JsonValue, paths: Seq<Seq<char>>) -> Option<u64>
    decreases paths.len(),
{
    if paths.len() == 0 {
        None
    } else {
        match spec_value_at_path(root, paths[0]) {
            Some(v) => match spec_value_to_u64(v) {
                Some(n) => Some(n),
                None => u64_at(root, paths.drop_first()),
            },
            None => u64_at(root, paths.drop_first()),
        }
    }
}

/// The WebSocket URL held by the first of `paths` that leads to one.
pub open spec fn ws_url_at(root: JsonValue, paths: Seq<Seq<char>>) -> Option<Seq<char>>
    decreases paths.len(),
{
    if paths.len() == 0 {
        None
    } else {
        match spec_value_at_path(root, paths[0]) {
            Some(v) => match spec_first_ws_url(v) {
                Some(s) => Some(s),
                None => ws_url_at(root, paths.drop_first()),
            },
            None => ws_url_at(root, paths.drop_first()),
        }
    }
}

pub fn string_at_paths(root: &JsonValue, paths: &[&str]) -> (r: Option<String>)
    ensures
        r matches Some(s) ==> string_at(*root, strs_view(paths@)) == Some(s@),
        r is None ==> string_at(*root, strs_view(paths@)) is None,
{
    let ghost all = strs_view(paths@);
    let mut i: usize = 0;
    assert(all.skip(0) =~= all);
    while i < paths.len()
        invariant
            i <= paths@.len(),
            all == strs_view(paths@),
            string_at(*root, all) == string_at(*root, all.skip(i as int)),
        decreases paths@.len() - i,
    {
        let ghost rest = all.skip(i as int);
        assert(rest[0] == paths@[i as int]@);
        assert(rest.drop_first() =~= all.skip(i + 1));
        match value_at_path(root, paths[i]) {
            Some(value) => match value_to_string(value) {
                Some(s) => {
                    return Some(s);
                },
                None => {},
            },
            None => {},
        }
        i += 1;
    }
    assert(all.skip(i as int) =~= Seq::<Seq<char>>::empty());
    None
}

pub fn u64_at_paths(root: &JsonValue, paths: &[&str]) -> (r: Option<u64>)
    ensures
        r == u64_at(*root, strs_view(paths@)),
{
    let ghost all = strs_view(paths@);
    let mut i: usize = 0;
    assert(all.skip(0) =~= all);
    while i < paths.len()
        invariant
            i <= paths@.len(),
            all == strs_view(paths@),
            u64_at(*root, all) == u64_at(*root, all.skip(i as int)),
        decreases paths@.len() - i,
    {
        let ghost rest = all.skip(i as int);
        assert(rest[0] == paths@[i as int]@);
        assert(rest.drop_first() =~= all.skip(i + 1));
        match value_at_path(root, paths[i]) {
            Some(value) => match value_to_u64(value) {
                Some(n) => {
                    return Some(n);
                },
                None => {},
            },
            None => {},
        }
        i += 1;
    }
    assert(all.skip(i as int) =~= Seq::<Seq<char>>::empty());
    None
}

pub fn ws_url_at_paths(root: &JsonValue, paths: &[&str]) -> (r: Option<String>)
    ensures
        r matches Some(s) ==> ws_url_at(*root, strs_view(paths@)) == Some(s@),
        r is None ==> ws_url_at(*root, strs_view(paths@)) is None,
{
    let ghost all = strs_view(paths@);
    let mut i: usize = 0;
    assert(all.skip(0) =~= all);
    while i < paths.len()
        invariant
            i <= paths@.len(),
            all == strs_view(paths@),
            ws_url_at(*root, all) == ws_url_at(*root, all.skip(i as int)),
        decreases paths@.len() - i,
    {
        let ghost rest = all.skip(i as int);
        assert(rest[0] == paths@[i as int]@);
        assert(rest.drop_first() =~= all.skip(i + 1));
        match value_at_path(root, paths[i]) {
            Some(value) => match first_ws_url(value) {
                Some(s) => {
                    return Some(s);
                },
                None => {},
            },
            None => {},
        }
        i += 1;
    }
    assert(all.skip(i as int) =~= Seq::<Seq<char>>::empty());
    None
}

/// What the connect API hands out for one live room.
#[derive(Clone, Debug, PartialEq, Eq)]
pub struct ConnectInfo {
    pub token: String,
    pub uid: u64,
    pub room_id: u64,
    pub wsurl: String,
}

/// The token, viewer id, room id and WebSocket address of a `ConnectInfo`.
pub open spec fn connect_view(info: ConnectInfo) -> (Seq<char>, u64, u64, Seq<char>) {
    (info.token@, info.uid, info.room_id, info.wsurl@)
}

impl ConnectInfo {
    pub fn duplicate(&self) -> (r: ConnectInfo)
        ensures
            connect_view(r) == connect_view(*self),
    {
        ConnectInfo {
            token: self.token.clone(),
            uid: self.uid,
            room_id: self.room_id,
            wsurl: self.wsurl.clone(),
        }
    }
}

pub open spec fn token_paths() -> Seq<Seq<char>> {
    seq!["token"@, "data.token"@]
}

pub open spec fn wsurl_paths() -> Seq<Seq<char>> {
    seq!["wsurl"@, "ws_url"@, "data.wsurl"@, "data.ws_url"@, "data.host_list"@]
}

pub open spec fn uid_paths() -> Seq<Seq<char>> {
    seq![
        "uid"@,
        "mid"@,
        "user_id"@,
        "userId"@,
        "data.uid"@,
        "data.mid"@,
        "data.user_id"@,
        "data.userId"@,
    ]
}

pub open spec fn room_id_paths() -> Seq<Seq<char>> {
    seq!["room_id"@, "roomid"@, "roomId"@, "data.room_id"@, "data.roomid"@, "data.roomId"@]
}

pub open spec fn token_empty_error() -> Seq<char> {
    "连接接口返回 token 为空"@
}

pub open spec fn wsurl_missing_error() -> Seq<char> {
    "连接接口返回 wsurl 必须包含 ws:// 或 wss://"@
}

pub open spec fn room_id_invalid_error() -> Seq<char> {
    "连接接口 room_id 无效"@
}

/// What a connect-API reply gives: the first token found (an error when there
/// is none or it is blank), the first WebSocket URL found (an error when
/// there is none), the viewer id (0 when there is none) and the room id (an
/// error when there is none).
pub open spec fn spec_parse_connect(root: JsonValue) -> Result<(Seq<char>, u64, u64, Seq<char>), Seq<char>> {
    match string_at(root, token_paths()) {
        None => Err(token_empty_error()),
        Some(token) => if blank(token) {
            Err(token_empty_error())
        } else {
            match ws_url_at(root, wsurl_paths()) {
                None => Err(wsurl_missing_error()),
                Some(wsurl) => {
                    let uid = match u64_at(root, uid_paths()) {
                        Some(n) => n,
                        None => 0,
                    };
                    match u64_at(root, room_id_paths()) {
                        None => Err(room_id_invalid_error()),
                        Some(room_id) => Ok((token, uid, room_id, wsurl)),
                    }
                },
            }
        },
    }
}

pub open spec fn connect_result_view(r: Result<ConnectInfo, String>) -> Result<(Seq<char>, u64, u64, Seq<char>), Seq<char>> {
    match r {
        Ok(info) => Ok(connect_view(info)),
        Err(e) => Err(e@),
    }
}

/// Reads the JSON reply of the connect API.
pub fn parse_connect_api_response(response: &JsonValue) -> (r: Result<ConnectInfo, String>)
    ensures
        connect_result_view(r) == spec_parse_connect(*response),
{
    let token_list: [&str; 2] = ["token", "data.token"];
    assert(strs_view(token_list@) =~= token_paths());
    let token = match string_at_paths(response, &token_list) {
        Some(t) => t,
        None => {
            return Err(String::from_str("连接接口返回 token 为空"));
        },
    };
    if is_blank(token.as_str()) {
        return Err(String::from_str("连接接口返回 token 为空"));
    }
    let wsurl_list: [&str; 5] = ["wsurl", "ws_url", "data.wsurl", "data.ws_url", "data.host_list"];
    assert(strs_view(wsurl_list@) =~= wsurl_paths());
    let wsurl = match ws_url_at_paths(response, &wsurl_list) {
        Some(w) => w,
        None => {
            return Err(String::from_str("连接接口返回 wsurl 必须包含 ws:// 或 wss://"));
        },
    };
    proof {
        lemma_ws_url_at_is_ws(*response, wsurl_paths());
    }
    if !is_ws_url(wsurl.as_str()) {
        return Err(String::from_str("连接接口返回 wsurl 必须是 ws:// 或 wss://"));
    }
    let uid_list: [&str; 8] = [
        "uid",
        "mid",
        "user_id",
        "userId",
        "data.uid",
        "data.mid",
        "data.user_id",
        "data.userId",
    ];
    assert(strs_view(uid_list@) =~= uid_paths());
    let uid = match u64_at_paths(response, &uid_list) {
        Some(n) => n,
        None => 0,
    };
    let room_list: [&str; 6] = [
        "room_id",
        "roomid",
        "roomId",
        "data.room_id",
        "data.roomid",
        "data.roomId",
    ];
    assert(strs_view(room_list@) =~= room_id_paths());
    let room_id = match u64_at_paths(response, &room_list) {
        Some(n) => n,
        None => {
            return Err(String::from_str("连接接口 room_id 无效"));
        },
    };
    Ok(ConnectInfo { token, uid, room_id, wsurl })
}

proof fn lemma_first_ws_in_is_ws(items: Seq<JsonValue>)
    ensures
        first_ws_in(items) matches Some(s) ==> is_ws_url_text(s),
    decreases items.len(),
{
    if items.len() > 0 {
        lemma_first_ws_in_is_ws(items.drop_first());
    }
}

/// A WebSocket URL found along the candidate paths is a `ws` or `wss` URL.
proof fn lemma_ws_url_at_is_ws(root: JsonValue, paths: Seq<Seq<char>>)
    ensures
        ws_url_at(root, paths) matches Some(s) ==> is_ws_url_text(s),
    decreases paths.len(),
{
    if paths.len() > 0 {
        lemma_ws_url_at_is_ws(root, paths.drop_first());
        match spec_value_at_path(root, paths[0]) {
            Some(v) => match v {
                JsonValue::Array { items, text } => lemma_first_ws_in_is_ws(items@),
                _ => {},
            },
            None => {},
        }
    }
}

/// How long, in seconds, one request to the connect API may take.
pub const CONNECT_API_HTTP_TIMEOUT_SECS: u64 = 20;

/// The time limit of one request to the connect API.
pub fn connect_api_http_timeout() -> (d: Duration)
    ensures
        d == duration_of_secs(CONNECT_API_HTTP_TIMEOUT_SECS),
{
    duration_from_secs(CONNECT_API_HTTP_TIMEOUT_SECS)
}

/// The last request made to the connect API and the last reply it gave.
#[derive(Debug)]
pub struct ConnectApiCache {
    pub last_request_at: Option<Instant>,
    pub last_success: Option<ConnectInfo>,
}

impl Default for ConnectApiCache {
    fn default() -> (r: Self)
        ensures
            r.last_request_at is None,
            r.last_success is None,
    {
        ConnectApiCache { last_request_at: None, last_success: None }
    }
}

pub open spec fn url_scheme_error() -> Seq<char> {
    "接口地址必须是 http:// 或 https://"@
}

impl ConnectApiCache {
    /// Forgets the last reply once the WebSocket it pointed to has failed, so
    /// that the next connection asks the API again.
    pub fn clear_success_after_ws_failure(&mut self)
        ensures
            final(self).last_success is None,
            final(self).last_request_at == old(self).last_request_at,
    {
        self.last_success = None;
    }

    /// Checks the connect API address and, when it is an `http` or `https`
    /// URL, records `now` as the time of the request about to be made. An
    /// address of another kind is refused and nothing is recorded.
    pub fn begin_request(&mut self, connect_api_url: &str, now: Instant) -> (r: Result<(), String>)
        ensures
            is_http_url(connect_api_url@) ==> r is Ok && final(self).last_request_at == Some(now)
                && final(self).last_success == old(self).last_success,
            !is_http_url(connect_api_url@) ==> (r matches Err(e) && e@ == url_scheme_error()),
            !is_http_url(connect_api_url@) ==> *final(self) == *old(self),
    {
        if !is_http_connect_api_url(connect_api_url) {
            return Err(String::from_str("接口地址必须是 http:// 或 https://"));
        }
        self.last_request_at = Some(now);
        Ok(())
    }

    /// Reads the API's reply; a reply that gives a connection is remembered
    /// as the last success.
    pub fn finish_request(&mut self, response: &JsonValue) -> (r: Result<ConnectInfo, String>)
        ensures
            connect_result_view(r) == spec_parse_connect(*response),
            final(self).last_request_at == old(self).last_request_at,
            r matches Ok(info) ==> (final(self).last_success matches Some(s) && connect_view(s)
                == connect_view(info)),
            r is Err ==> final(self).last_success == old(self).last_success,
    {
        let info = parse_connect_api_response(response)?;
        self.last_success = Some(info.duplicate());
        Ok(info)
    }
}

/// How long to wait before asking the connect API again. There is no local
/// cooldown: a failed request may be retried at once.
pub fn connect_api_wait_duration(
    last_request_at: Option<Instant>,
    cached: Option<&ConnectInfo>,
    now: Instant,
) -> (r: Option<Duration>)
    ensures
        r is None,
{
    None
}

/// A cached reply to reuse instead of asking the API. None is ever reused:
/// every WebSocket reconnection asks the API for a fresh token.
pub fn cached_connect_info_during_cooldown<'a>(
    last_request_at: Option<Instant>,
    cached: Option<&'a ConnectInfo>,
    now: Instant,
) -> (r: Option<&'a ConnectInfo>)
    ensures
        r is None,
{
    None
}

/// The stage of a connect-API request that failed.
#[derive(Clone, Copy, Debug, PartialEq, Eq, Structural)]
pub enum ConnectFailure {
    /// The HTTP client could not be built.
    Client,
    /// The request could not be sent.
    Send,
    /// The server answered with an error status.
    Status,
    /// The reply body could not be read.
    Read,
}

/// The message reported for a failed connect-API request: a timeout while
/// sending or reading is reported as such, any other failure with its detail.
pub open spec fn spec_connect_failure_message(stage: ConnectFailure, timed_out: bool, detail: Seq<char>) -> Seq<char> {
    match stage {
        ConnectFailure::Client => "连接接口客户端创建失败："@ + detail,
        ConnectFailure::Send => if timed_out {
            "连接接口请求超时"@
        } else {
            "连接接口请求失败："@ + detail
        },
        ConnectFailure::Status => "连接接口 HTTP 状态失败："@ + detail,
        ConnectFailure::Read => if timed_out {
            "连接接口请求超时"@
        } else {
            "连接接口读取失败："@ + detail
        },
    }
}

pub fn connect_failure_message(stage: ConnectFailure, timed_out: bool, detail: &str) -> (r: String)
    ensures
        r@ == spec_connect_failure_message(stage, timed_out, detail@),
{
    let mut out = match stage {
        ConnectFailure::Client => String::from_str("连接接口客户端创建失败："),
        ConnectFailure::Send => {
            if timed_out {
                return String::from_str("连接接口请求超时");
            }
            String::from_str("连接接口请求失败：")
        },
        ConnectFailure::Status => String::from_str("连接接口 HTTP 状态失败："),
        ConnectFailure::Read => {
            if timed_out {
                return String::from_str("连接接口请求超时");
            }
            String::from_str("连接接口读取失败：")
        },
    };
    push_str(&mut out, detail);
    out
}

/// The message reported when the connect API's reply is not JSON.
pub fn connect_api_json_error(detail: &str) -> (r: String)
    ensures
        r@ == "连接接口返回 JSON 解析失败："@ + detail@,
{
    let mut out = String::from_str("连接接口返回 JSON 解析失败：");
    push_str(&mut out, detail);
    out
}

/// How long a probe of a live room listens, and how many danmaku samples
/// let it stop early.
#[derive(Clone, Copy, Debug)]
pub struct ProbeOptions {
    pub min_danmu_samples: usize,
    pub max_duration: Duration,
}

impl Default for ProbeOptions {
    fn default() -> (r: Self)
        ensures
            r.min_danmu_samples == 5,
            r.max_duration == duration_of_secs(30),
    {
        ProbeOptions { min_danmu_samples: 5, max_duration: duration_from_secs(30) }
    }
}

/// A reply that gives a connection gives a token that is not blank and a
/// `ws` or `wss` WebSocket URL.
pub proof fn law_connection_has_token_and_ws_url(root: JsonValue)
    ensures
        spec_parse_connect(root) matches Ok(t) ==> !blank(t.0) && is_ws_url_text(t.3),
{
    lemma_ws_url_at_is_ws(root, wsurl_paths());
}

/// The first of `paths` that leads to an unsigned integer decides `u64_at`.
proof fn lemma_u64_at_index(root: JsonValue, paths: Seq<Seq<char>>, i: int, n: u64)
    requires
        0 <= i < paths.len(),
        forall|j: int|
            0 <= j < i ==> (#[trigger] spec_value_at_path(root, paths[j]) matches Some(v)
                ==> spec_value_to_u64(v) is None),
        spec_value_at_path(root, paths[i]) matches Some(v) && spec_value_to_u64(v) == Some(n),
    ensures
        u64_at(root, paths) == Some(n),
    decreases i,
{
    if i > 0 {
        let rest = paths.drop_first();
        assert forall|j: int| 0 <= j < i - 1 implies (#[trigger] spec_value_at_path(root, rest[j]) matches Some(v)
            ==> spec_value_to_u64(v) is None) by {
            assert(rest[j] == paths[j + 1]);
            assert(spec_value_at_path(root, paths[j + 1]) matches Some(v) ==> spec_value_to_u64(v) is None);
        }
        assert(rest[i - 1] == paths[i]);
        lemma_u64_at_index(root, rest, i - 1, n);
        assert(spec_value_at_path(root, paths[0]) matches Some(v) ==> spec_value_to_u64(v) is None);
    }
}

/// No path of `paths` leads to an unsigned integer: `u64_at` finds none.
proof fn lemma_u64_at_none(root: JsonValue, paths: Seq<Seq<char>>)
    requires
        forall|j: int|
            0 <= j < paths.len() ==> (#[trigger] spec_value_at_path(root, paths[j]) matches Some(v)
                ==> spec_value_to_u64(v) is None),
    ensures
        u64_at(root, paths) is None,
    decreases paths.len(),
{
    if paths.len() > 0 {
        let rest = paths.drop_first();
        assert forall|j: int| 0 <= j < rest.len() implies (#[trigger] spec_value_at_path(root, rest[j]) matches Some(v)
            ==> spec_value_to_u64(v) is None) by {
            assert(rest[j] == paths[j + 1]);
            assert(spec_value_at_path(root, paths[j + 1]) matches Some(v) ==> spec_value_to_u64(v) is None);
        }
        lemma_u64_at_none(root, rest);
        assert(spec_value_at_path(root, paths[0]) matches Some(v) ==> spec_value_to_u64(v) is None);
    }
}

/// The first of `paths` that leads to a string, number or boolean decides
/// `string_at`.
proof fn lemma_string_at_index(root: JsonValue, paths: Seq<Seq<char>>, i: int, t: Seq<char>)
    requires
        0 <= i < paths.len(),
        forall|j: int|
            0 <= j < i ==> (#[trigger] spec_value_at_path(root, paths[j]) matches Some(v)
                ==> spec_value_to_string(v) is None),
        spec_value_at_path(root, paths[i]) matches Some(v) && spec_value_to_string(v) == Some(t),
    ensures
        string_at(root, paths) == Some(t),
    decreases i,
{
    if i > 0 {
        let rest = paths.drop_first();
        assert forall|j: int| 0 <= j < i - 1 implies (#[trigger] spec_value_at_path(root, rest[j]) matches Some(v)
            ==> spec_value_to_string(v) is None) by {
            assert(rest[j] == paths[j + 1]);
            assert(spec_value_at_path(root, paths[j + 1]) matches Some(v) ==> spec_value_to_string(v) is None);
        }
        assert(rest[i - 1] == paths[i]);
        lemma_string_at_index(root, rest, i - 1, t);
        assert(spec_value_at_path(root, paths[0]) matches Some(v) ==> spec_value_to_string(v) is None);
    }
}

/// The first of `paths` that leads to a WebSocket URL decides `ws_url_at`.
proof fn lemma_ws_url_at_index(root: JsonValue, paths: Seq<Seq<char>>, i: int, w: Seq<char>)
    requires
        0 <= i < paths.len(),
        forall|j: int|
            0 <= j < i ==> (#[trigger] spec_value_at_path(root, paths[j]) matches Some(v)
                ==> spec_first_ws_url(v) is None),
        spec_value_at_path(root, paths[i]) matches Some(v) && spec_first_ws_url(v) == Some(w),
    ensures
        ws_url_at(root, paths) == Some(w),
    decreases i,
{
    if i > 0 {
        let rest = paths.drop_first();
        assert forall|j: int| 0 <= j < i - 1 implies (#[trigger] spec_value_at_path(root, rest[j]) matches Some(v)
            ==> spec_first_ws_url(v) is None) by {
            assert(rest[j] == paths[j + 1]);
            assert(spec_value_at_path(root, paths[j + 1]) matches Some(v) ==> spec_first_ws_url(v) is None);
        }
        assert(rest[i - 1] == paths[i]);
        lemma_ws_url_at_index(root, rest, i - 1, w);
        assert(spec_value_at_path(root, paths[0]) matches Some(v) ==> spec_first_ws_url(v) is None);
    }
}

/// The candidate paths of a value that holds no usable value before `i`
/// and gives `found` at `i` (a text value).
pub open spec fn text_first_at(root: JsonValue, paths: Seq<Seq<char>>, i: int, found: Seq<char>) -> bool {
    &&& 0 <= i < paths.len()
    &&& forall|j: int|
        0 <= j < i ==> (#[trigger] spec_value_at_path(root, paths[j]) matches Some(v)
            ==> spec_value_to_string(v) is None)
    &&& spec_value_at_path(root, paths[i]) matches Some(v) && spec_value_to_string(v) == Some(found)
}

pub open spec fn number_first_at(root: JsonValue, paths: Seq<Seq<char>>, i: int, found: u64) -> bool {
    &&& 0 <= i < paths.len()
    &&& forall|j: int|
        0 <= j < i ==> (#[trigger] spec_value_at_path(root, paths[j]) matches Some(v)
            ==> spec_value_to_u64(v) is None)
    &&& spec_value_at_path(root, paths[i]) matches Some(v) && spec_value_to_u64(v) == Some(found)
}

pub open spec fn no_number_at(root: JsonValue, paths: Seq<Seq<char>>) -> bool {
    forall|j: int|
        0 <= j < paths.len() ==> (#[trigger] spec_value_at_path(root, paths[j]) matches Some(v)
            ==> spec_value_to_u64(v) is None)
}

pub open spec fn ws_first_at(root: JsonValue, paths: Seq<Seq<char>>, i: int, found: Seq<char>) -> bool {
    &&& 0 <= i < paths.len()
    &&& forall|j: int|
        0 <= j < i ==> (#[trigger] spec_value_at_path(root, paths[j]) matches Some(v)
            ==> spec_first_ws_url(v) is None)
    &&& spec_value_at_path(root, paths[i]) matches Some(v) && spec_first_ws_url(v) == Some(found)
}

/// A connect-API reply gives a connection made of the first usable value
/// along each field's candidate paths: the token at `token` or `data.token`
/// (when it is not blank), the WebSocket URL at `wsurl`, `ws_url`,
/// `data.wsurl`, `data.ws_url` or `data.host_list`, the room id at
/// `room_id`, `roomid`, `roomId`, `data.room_id`, `data.roomid` or
/// `data.roomId`, and the viewer id at `uid`, `mid`, `user_id`, `userId` or
/// the same under `data` (0 when there is none).
pub proof fn law_connect_reply_fields(
    root: JsonValue,
    ti: int,
    t: Seq<char>,
    wi: int,
    w: Seq<char>,
    ri: int,
    room: u64,
    ui: int,
    uid: u64,
)
    requires
        text_first_at(root, seq!["token"@, "data.token"@], ti, t),
        !blank(t),
        ws_first_at(
            root,
            seq!["wsurl"@, "ws_url"@, "data.wsurl"@, "data.ws_url"@, "data.host_list"@],
            wi,
            w,
        ),
        number_first_at(
            root,
            seq!["room_id"@, "roomid"@, "roomId"@, "data.room_id"@, "data.roomid"@, "data.roomId"@],
            ri,
            room,
        ),
        ({
            let uids = seq![
                "uid"@,
                "mid"@,
                "user_id"@,
                "userId"@,
                "data.uid"@,
                "data.mid"@,
                "data.user_id"@,
                "data.userId"@,
            ];
            (0 <= ui < 8 && number_first_at(root, uids, ui, uid)) || (ui == 8 && no_number_at(root, uids)
                && uid == 0)
        }),
    ensures
        spec_parse_connect(root) == Ok::<(Seq<char>, u64, u64, Seq<char>), Seq<char>>((t, uid, room, w)),
{
    let tokens = seq!["token"@, "data.token"@];
    let wss = seq!["wsurl"@, "ws_url"@, "data.wsurl"@, "data.ws_url"@, "data.host_list"@];
    let rooms = seq!["room_id"@, "roomid"@, "roomId"@, "data.room_id"@, "data.roomid"@, "data.roomId"@];
    let uids = seq![
        "uid"@,
        "mid"@,
        "user_id"@,
        "userId"@,
        "data.uid"@,
        "data.mid"@,
        "data.user_id"@,
        "data.userId"@,
    ];
    assert(token_paths() =~= tokens);
    assert(wsurl_paths() =~= wss);
    assert(room_id_paths() =~= rooms);
    assert(uid_paths() =~= uids);
    lemma_string_at_index(root, tokens, ti, t);
    lemma_ws_url_at_index(root, wss, wi, w);
    lemma_u64_at_index(root, rooms, ri, room);
    if ui < 8 {
        lemma_u64_at_index(root, uids, ui, uid);
    } else {
        lemma_u64_at_none(root, uids);
    }
}

/// The WebSocket URL of a value is the value itself when it is a `ws`/`wss`
/// URL string, and otherwise the first string of an array that is one.
pub proof fn law_first_ws_url(v: JsonValue, i: int)
    ensures
        v matches JsonValue::String(s) ==> spec_first_ws_url(v) == (if is_ws_url_text(s@) {
            Some(s@)
        } else {
            None
        }),
        v matches JsonValue::Array { items, text } ==> (0 <= i < items@.len() && (items@[i] matches JsonValue::String(s)
            && is_ws_url_text(s@)) && (forall|j: int| 0 <= j < i ==> !(#[trigger] items@[j] matches JsonValue::String(s2)
            && is_ws_url_text(s2@))) ==> spec_first_ws_url(v) == Some(items@[i]->String_0@)),
{
    match v {
        JsonValue::Array { items, text } => {
            if 0 <= i < items@.len() && (items@[i] matches JsonValue::String(s) && is_ws_url_text(s@))
                && (forall|j: int| 0 <= j < i ==> !(#[trigger] items@[j] matches JsonValue::String(s2)
                && is_ws_url_text(s2@))) {
                lemma_first_ws_in_index(items@, i);
            }
        },
        _ => {},
    }
}

proof fn lemma_first_ws_in_index(items: Seq<JsonValue>, i: int)
    requires
        0 <= i < items.len(),
        items[i] matches JsonValue::String(s) && is_ws_url_text(s@),
        forall|j: int| 0 <= j < i ==> !(#[trigger] items[j] matches JsonValue::String(s2) && is_ws_url_text(s2@)),
    ensures
        first_ws_in(items) == Some(items[i]->String_0@),
    decreases i,
{
    if i > 0 {
        let rest = items.drop_first();
        assert forall|j: int| 0 <= j < i - 1 implies !(#[trigger] rest[j] matches JsonValue::String(s2)
            && is_ws_url_text(s2@)) by {
            assert(rest[j] == items[j + 1]);
        }
        assert(rest[i - 1] == items[i]);
        lemma_first_ws_in_index(rest, i - 1);
        assert(!(items[0] matches JsonValue::String(s2) && is_ws_url_text(s2@)));
    }
}

proof fn lemma_string_at_none(root: JsonValue, paths: Seq<Seq<char>>)
    requires
        forall|j: int|
            0 <= j < paths.len() ==> (#[trigger] spec_value_at_path(root, paths[j]) matches Some(v)
                ==> spec_value_to_string(v) is None),
    ensures
        string_at(root, paths) is None,
    decreases paths.len(),
{
    if paths.len() > 0 {
        let rest = paths.drop_first();
        assert forall|j: int| 0 <= j < rest.len() implies (#[trigger] spec_value_at_path(root, rest[j]) matches Some(v)
            ==> spec_value_to_string(v) is None) by {
            assert(rest[j] == paths[j + 1]);
            assert(spec_value_at_path(root, paths[j + 1]) matches Some(v) ==> spec_value_to_string(v) is None);
        }
        lemma_string_at_none(root, rest);
        assert(spec_value_at_path(root, paths[0]) matches Some(v) ==> spec_value_to_string(v) is None);
    }
}

proof fn lemma_ws_url_at_none(root: JsonValue, paths: Seq<Seq<char>>)
    requires
        forall|j: int|
            0 <= j < paths.len() ==> (#[trigger] spec_value_at_path(root, paths[j]) matches Some(v)
                ==> spec_first_ws_url(v) is None),
    ensures
        ws_url_at(root, paths) is None,
    decreases paths.len(),
{
    if paths.len() > 0 {
        let rest = paths.drop_first();
        assert forall|j: int| 0 <= j < rest.len() implies (#[trigger] spec_value_at_path(root, rest[j]) matches Some(v)
            ==> spec_first_ws_url(v) is None) by {
            assert(rest[j] == paths[j + 1]);
            assert(spec_value_at_path(root, paths[j + 1]) matches Some(v) ==> spec_first_ws_url(v) is None);
        }
        lemma_ws_url_at_none(root, rest);
        assert(spec_value_at_path(root, paths[0]) matches Some(v) ==> spec_first_ws_url(v) is None);
    }
}

pub open spec fn no_text_at(root: JsonValue, paths: Seq<Seq<char>>) -> bool {
    forall|j: int|
        0 <= j < paths.len() ==> (#[trigger] spec_value_at_path(root, paths[j]) matches Some(v)
            ==> spec_value_to_string(v) is None)
}

pub open spec fn no_ws_at(root: JsonValue, paths: Seq<Seq<char>>) -> bool {
    forall|j: int|
        0 <= j < paths.len() ==> (#[trigger] spec_value_at_path(root, paths[j]) matches Some(v)
            ==> spec_first_ws_url(v) is None)
}

/// A reply without a usable token, with a blank token, without a WebSocket
/// URL or without a room id is refused, each with its own message, checked
/// in that order.
pub proof fn law_connect_reply_errors(root: JsonValue, ti: int, t: Seq<char>, wi: int, w: Seq<char>)
    ensures
        no_text_at(root, seq!["token"@, "data.token"@]) ==> spec_parse_connect(root) == Err::<
            (Seq<char>, u64, u64, Seq<char>),
            Seq<char>,
        >("连接接口返回 token 为空"@),
        text_first_at(root, seq!["token"@, "data.token"@], ti, t) && blank(t) ==> spec_parse_connect(root)
            == Err::<(Seq<char>, u64, u64, Seq<char>), Seq<char>>("连接接口返回 token 为空"@),
        text_first_at(root, seq!["token"@, "data.token"@], ti, t) && !blank(t) && no_ws_at(
            root,
            seq!["wsurl"@, "ws_url"@, "data.wsurl"@, "data.ws_url"@, "data.host_list"@],
        ) ==> spec_parse_connect(root) == Err::<(Seq<char>, u64, u64, Seq<char>), Seq<char>>(
            "连接接口返回 wsurl 必须包含 ws:// 或 wss://"@,
        ),
        text_first_at(root, seq!["token"@, "data.token"@], ti, t) && !blank(t) && ws_first_at(
            root,
            seq!["wsurl"@, "ws_url"@, "data.wsurl"@, "data.ws_url"@, "data.host_list"@],
            wi,
            w,
        ) && no_number_at(
            root,
            seq!["room_id"@, "roomid"@, "roomId"@, "data.room_id"@, "data.roomid"@, "data.roomId"@],
        ) ==> spec_parse_connect(root) == Err::<(Seq<char>, u64, u64, Seq<char>), Seq<char>>(
            "连接接口 room_id 无效"@,
        ),
{
    let tokens = seq!["token"@, "data.token"@];
    let wss = seq!["wsurl"@, "ws_url"@, "data.wsurl"@, "data.ws_url"@, "data.host_list"@];
    let rooms = seq!["room_id"@, "roomid"@, "roomId"@, "data.room_id"@, "data.roomid"@, "data.roomId"@];
    assert(token_paths() =~= tokens);
    assert(wsurl_paths() =~= wss);
    assert(room_id_paths() =~= rooms);
    if no_text_at(root, tokens) {
        lemma_string_at_none(root, tokens);
    }
    if text_first_at(root, tokens, ti, t) {
        lemma_string_at_index(root, tokens, ti, t);
        if no_ws_at(root, wss) {
            lemma_ws_url_at_none(root, wss);
        }
        if ws_first_at(root, wss, wi, w) {
            lemma_ws_url_at_index(root, wss, wi, w);
            if no_number_at(root, rooms) {
                lemma_u64_at_none(root, rooms);
            }
        }
    }
}

} // verus!
