//! The live-room connection: the status line shown while it connects, fails
//! and retries, and what each step of the connection loop does.

use vstd::prelude::*;
use crate::connect::is_http_connect_api_url;
use crate::connect::is_http_url;
use crate::text::{
    ascii_lower, contains, contains_text, push_decimal, push_str, decimal, to_ascii_lowercase,
};

verus! {

/// Seconds between a failed attempt and the next one.
pub const RETRY_DELAY_SECONDS: u64 = 2;

/// Seconds that opening the WebSocket may take.
pub const WS_CONNECT_TIMEOUT_SECS: u64 = 20;

/// `"{prefix}, 2秒后重试"`.
pub open spec fn spec_retry_status(prefix: Seq<char>) -> Seq<char> {
    prefix + ", "@ + decimal(RETRY_DELAY_SECONDS as nat) + "秒后重试"@
}

pub fn retry_status(prefix: &str) -> (r: String)
    ensures
        r@ == spec_retry_status(prefix@),
{
    let mut out = String::from_str(prefix);
    push_str(&mut out, ", ");
    push_decimal(&mut out, RETRY_DELAY_SECONDS);
    push_str(&mut out, "秒后重试");
    out
}

/// An error reads as a timeout when it says 超时, or `timeout` or
/// `timed out` in any ASCII case.
pub open spec fn spec_is_timeout_error(error: Seq<char>) -> bool {
    let lower = error.map_values(|c: char| ascii_lower(c));
    contains_text(error, "超时"@) || contains_text(lower, "timeout"@) || contains_text(
        lower,
        "timed out"@,
    )
}

pub fn is_timeout_error(error: &str) -> (r: bool)
    ensures
        r == spec_is_timeout_error(error@),
{
    let lower = to_ascii_lowercase(error);
    contains(error, "超时") || contains(lower.as_str(), "timeout") || contains(
        lower.as_str(),
        "timed out",
    )
}

/// The status shown after the connect API failed with `error`: the API is
/// off when its address is not an `http`/`https` URL or was refused as such,
/// timed out when the error says so, and answered badly otherwise.
pub open spec fn spec_api_retry_status(connect_api_url: Seq<char>, error: Seq<char>) -> Seq<char> {
    if !is_http_url(connect_api_url) || contains_text(error, "接口地址必须"@) {
        spec_retry_status("接口.未开启"@)
    } else if spec_is_timeout_error(error) {
        spec_retry_status("接口.请求超时"@)
    } else {
        spec_retry_status("接口.解析异常"@)
    }
}

pub fn api_retry_status(connect_api_url: &str, error: &str) -> (r: String)
    ensures
        r@ == spec_api_retry_status(connect_api_url@, error@),
{
    if !is_http_connect_api_url(connect_api_url) || contains(error, "接口地址必须") {
        retry_status("接口.未开启")
    } else if is_timeout_error(error) {
        retry_status("接口.请求超时")
    } else {
        retry_status("接口.解析异常")
    }
}

/// The status shown after the WebSocket timed out or dropped.
pub open spec fn spec_ws_retry_status(timed_out: bool) -> Seq<char> {
    if timed_out {
        spec_retry_status("连接.请求超时"@)
    } else {
        spec_retry_status("连接.意外断开"@)
    }
}

pub fn ws_retry_status(timed_out: bool) -> (r: String)
    ensures
        r@ == spec_ws_retry_status(timed_out),
{
    if timed_out {
        retry_status("连接.请求超时")
    } else {
        retry_status("连接.意外断开")
    }
}

/// What happened in the loop that keeps the live-room connection up.
#[derive(Clone, Debug)]
pub enum LinkEvent {
    /// A new attempt starts: the connect API is about to be asked.
    Resolving,
    /// The connect API gave a connection.
    Resolved,
    /// The connect API failed with this error.
    ResolveFailed(String),
    /// Opening the WebSocket took longer than allowed.
    ConnectTimedOut,
    /// Opening the WebSocket failed.
    ConnectFailed,
    /// The room-enter packet could not be sent.
    EnterFailed,
    /// The room-enter packet was sent.
    EnterSent,
    /// A frame arrived; whether it held the reply to the room-enter packet.
    FrameRead { room_entered: bool },
    /// A heartbeat could not be sent, or the stream failed or closed.
    StreamLost,
}

/// What the loop does after an event.
#[derive(Clone, Debug)]
pub struct LinkStep {
    /// The connection status to show, when it changes: its text and whether
    /// the WebSocket is up.
    pub status: Option<(String, bool)>,
    /// Forget the last connect-API reply, so that the next attempt asks for
    /// a fresh token.
    pub clear_cached_connect_info: bool,
    /// Give up on this attempt and start the next one after the delay.
    pub retry: bool,
}

pub open spec fn link_step_view(s: LinkStep) -> (Option<(Seq<char>, bool)>, bool, bool) {
    (
        match s.status {
            Some(st) => Some((st.0@, st.1)),
            None => None,
        },
        s.clear_cached_connect_info,
        s.retry,
    )
}

/// The step for each event: an API failure is shown and retried; a failed
/// WebSocket is shown, its cached reply forgotten and retried; progress is
/// shown as it happens.
pub open spec fn spec_link_step(connect_api_url: Seq<char>, event: LinkEvent) -> (Option<(Seq<char>, bool)>, bool, bool) {
    match event {
        LinkEvent::Resolving => (Some(("对接中..."@, false)), false, false),
        LinkEvent::Resolved => (Some(("连接中..."@, false)), false, false),
        LinkEvent::ResolveFailed(error) => (
            Some((spec_api_retry_status(connect_api_url, error@), false)),
            false,
            true,
        ),
        LinkEvent::ConnectTimedOut => (Some((spec_ws_retry_status(true), false)), true, true),
        LinkEvent::ConnectFailed => (Some((spec_ws_retry_status(false), false)), true, true),
        LinkEvent::EnterFailed => (Some((spec_ws_retry_status(false), false)), true, true),
        LinkEvent::EnterSent => (Some(("连接中..."@, true)), false, false),
        LinkEvent::FrameRead { room_entered } => if room_entered {
            (Some(("已连接！"@, true)), false, false)
        } else {
            (None, false, false)
        },
        LinkEvent::StreamLost => (Some((spec_ws_retry_status(false), false)), true, true),
    }
}

pub fn link_step(connect_api_url: &str, event: &LinkEvent) -> (r: LinkStep)
    ensures
        link_step_view(r) == spec_link_step(connect_api_url@, *event),
{
    match event {
        LinkEvent::Resolving => LinkStep {
            status: Some((String::from_str("对接中..."), false)),
            clear_cached_connect_info: false,
            retry: false,
        },
        LinkEvent::Resolved => LinkStep {
            status: Some((String::from_str("连接中..."), false)),
            clear_cached_connect_info: false,
            retry: false,
        },
        LinkEvent::ResolveFailed(error) => LinkStep {
            status: Some((api_retry_status(connect_api_url, error.as_str()), false)),
            clear_cached_connect_info: false,
            retry: true,
        },
        LinkEvent::ConnectTimedOut => LinkStep {
            status: Some((ws_retry_status(true), false)),
            clear_cached_connect_info: true,
            retry: true,
        },
        LinkEvent::ConnectFailed | LinkEvent::EnterFailed | LinkEvent::StreamLost => LinkStep {
            status: Some((ws_retry_status(false), false)),
            clear_cached_connect_info: true,
            retry: true,
        },
        LinkEvent::EnterSent => LinkStep {
            status: Some((String::from_str("连接中..."), true)),
            clear_cached_connect_info: false,
            retry: false,
        },
        LinkEvent::FrameRead { room_entered } => {
            if *room_entered {
                LinkStep {
                    status: Some((String::from_str("已连接！"), true)),
                    clear_cached_connect_info: false,
                    retry: false,
                }
            } else {
                LinkStep { status: None, clear_cached_connect_info: false, retry: false }
            }
        },
    }
}

/// Every failure of the WebSocket forgets the cached connect-API reply and
/// starts a new attempt, and shows the socket as down.
pub proof fn law_ws_failures_force_a_fresh_connect_reply(connect_api_url: Seq<char>, event: LinkEvent)
    requires
        event is ConnectTimedOut || event is ConnectFailed || event is EnterFailed
            || event is StreamLost,
    ensures
        spec_link_step(connect_api_url, event).1,
        spec_link_step(connect_api_url, event).2,
        spec_link_step(connect_api_url, event).0 matches Some(st) && !st.1,
{
}

/// Exactly the failures lead to a retry, and a retry always shows a status
/// that says when the next attempt comes.
pub proof fn law_retries_announce_the_delay(connect_api_url: Seq<char>, event: LinkEvent)
    ensures
        spec_link_step(connect_api_url, event).2 <==> (event is ResolveFailed || event is ConnectTimedOut
            || event is ConnectFailed || event is EnterFailed || event is StreamLost),
        spec_link_step(connect_api_url, event).2 ==> (spec_link_step(connect_api_url, event).0 matches Some(st)
            && (", "@ + decimal(RETRY_DELAY_SECONDS as nat) + "秒后重试"@).is_suffix_of(st.0)),
{
    let suffix = ", "@ + decimal(RETRY_DELAY_SECONDS as nat) + "秒后重试"@;
    assert forall|p: Seq<char>| suffix.is_suffix_of(#[trigger] spec_retry_status(p)) by {
        assert(spec_retry_status(p) =~= p + suffix);
        assert((p + suffix).subrange(p.len() as int, (p + suffix).len() as int) =~= suffix);
    }
    match event {
        LinkEvent::ResolveFailed(e) => {
            assert(suffix.is_suffix_of(spec_api_retry_status(connect_api_url, e@)));
        },
        _ => {},
    }
}

/// The statuses the connection loop shows, for every event: progress
/// reads 对接中..., 连接中... and 已连接！; a failed WebSocket reads
/// 连接.请求超时 or 连接.意外断开 and a failed connect API reads 接口.未开启
/// (no http/https address, or the address was refused), 接口.请求超时 (the
/// error speaks of a timeout) or 接口.解析异常, each followed by
/// ", 2秒后重试".
pub proof fn law_link_statuses(connect_api_url: Seq<char>, event: LinkEvent)
    ensures
        event is Resolving ==> spec_link_step(connect_api_url, event).0 == Some(("对接中..."@, false)),
        event is Resolved ==> spec_link_step(connect_api_url, event).0 == Some(("连接中..."@, false)),
        event is EnterSent ==> spec_link_step(connect_api_url, event).0 == Some(("连接中..."@, true)),
        event == (LinkEvent::FrameRead { room_entered: true }) ==> spec_link_step(connect_api_url, event).0
            == Some(("已连接！"@, true)),
        event == (LinkEvent::FrameRead { room_entered: false }) ==> spec_link_step(
            connect_api_url,
            event,
        ).0 is None,
        event is ConnectTimedOut ==> spec_link_step(connect_api_url, event).0 == Some(
            ("连接.请求超时, 2秒后重试"@, false),
        ),
        event is ConnectFailed || event is EnterFailed || event is StreamLost ==> spec_link_step(
            connect_api_url,
            event,
        ).0 == Some(("连接.意外断开, 2秒后重试"@, false)),
        event matches LinkEvent::ResolveFailed(e) ==> spec_link_step(connect_api_url, event).0 == Some(
            (
                if !is_http_url(connect_api_url) || contains_text(e@, "接口地址必须"@) {
                    "接口.未开启, 2秒后重试"@
                } else if contains_text(e@, "超时"@) || contains_text(
                    e@.map_values(|c: char| ascii_lower(c)),
                    "timeout"@,
                ) || contains_text(e@.map_values(|c: char| ascii_lower(c)), "timed out"@) {
                    "接口.请求超时, 2秒后重试"@
                } else {
                    "接口.解析异常, 2秒后重试"@
                },
                false,
            ),
        ),
{
    assert(decimal(2) =~= seq!['2']);
    reveal_strlit(", ");
    reveal_strlit("秒后重试");
    reveal_strlit("连接.请求超时");
    reveal_strlit("连接.意外断开");
    reveal_strlit("接口.未开启");
    reveal_strlit("接口.请求超时");
    reveal_strlit("接口.解析异常");
    reveal_strlit("连接.请求超时, 2秒后重试");
    reveal_strlit("连接.意外断开, 2秒后重试");
    reveal_strlit("接口.未开启, 2秒后重试");
    reveal_strlit("接口.请求超时, 2秒后重试");
    reveal_strlit("接口.解析异常, 2秒后重试");
    assert(spec_retry_status("连接.请求超时"@) =~= "连接.请求超时, 2秒后重试"@);
    assert(spec_retry_status("连接.意外断开"@) =~= "连接.意外断开, 2秒后重试"@);
    assert(spec_retry_status("接口.未开启"@) =~= "接口.未开启, 2秒后重试"@);
    assert(spec_retry_status("接口.请求超时"@) =~= "接口.请求超时, 2秒后重试"@);
    assert(spec_retry_status("接口.解析异常"@) =~= "接口.解析异常, 2秒后重试"@);
}

} // verus!
