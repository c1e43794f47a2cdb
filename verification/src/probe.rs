//! A probe of a live room: the samples it keeps of the notifications it
//! hears, and the report it makes of them.

use vstd::prelude::*;
use crate::clock::now_ms;
use crate::connect::ConnectInfo;
use crate::events::{
    confirmed_view, texts_view, ConfirmedPath, FrameEvents, ParsedNotificationEvent,
};
use crate::json::JsonValue;
use crate::text::{push_str, str_eq};

verus! {

/// What a probe keeps of one notification.
#[derive(Debug)]
pub struct ProbeEventReport {
    pub cmd: String,
    pub recv_ms: i64,
    pub confirmed_paths: Vec<ConfirmedPath>,
    pub warnings: Vec<String>,
    pub raw_json: JsonValue,
}

/// `r` reports `e`, received at `recv_ms`.
pub open spec fn reports(r: ProbeEventReport, e: ParsedNotificationEvent, recv_ms: i64) -> bool {
    &&& r.cmd@ == e.cmd@
    &&& r.recv_ms == recv_ms
    &&& confirmed_view(r.confirmed_paths@) == confirmed_view(e.confirmed_paths@)
    &&& texts_view(r.warnings@) == texts_view(e.warnings@)
    &&& r.raw_json == e.raw_json
}

/// The report of a notification: its command, when it arrived, which paths
/// supplied its fields, what was missing, and its JSON.
pub fn analyze_notification_event(event: ParsedNotificationEvent, recv_ms: i64) -> (r: ProbeEventReport)
    ensures
        reports(r, event, recv_ms),
{
    ProbeEventReport {
        cmd: event.cmd,
        recv_ms,
        confirmed_paths: event.confirmed_paths,
        warnings: event.warnings,
        raw_json: event.raw_json,
    }
}

/// The room a probe listened to.
#[derive(Clone, Debug)]
pub struct ProbeConnectionInfo {
    pub uid: u64,
    pub room_id: u64,
    pub wsurl: String,
}

/// The outcome of a probe.
#[derive(Debug)]
pub struct ProbeReport {
    pub connect: ProbeConnectionInfo,
    pub started_ms: i64,
    pub ended_ms: i64,
    pub danmu_samples: Vec<ProbeEventReport>,
    pub super_chat_samples: Vec<ProbeEventReport>,
    pub other_notifications: usize,
    pub super_chat_status: String,
    pub report_path: Option<String>,
}

/// The samples a probe has gathered so far.
#[derive(Debug)]
pub struct ProbeSamples {
    pub danmu_samples: Vec<ProbeEventReport>,
    pub super_chat_samples: Vec<ProbeEventReport>,
    pub other_notifications: usize,
}

/// The commands of a list of reports.
pub open spec fn report_cmds(v: Seq<ProbeEventReport>) -> Seq<Seq<char>> {
    v.map_values(|r: ProbeEventReport| r.cmd@)
}

/// The danmaku among `events` that a probe keeps when it already keeps
/// `kept`: each danmaku while fewer than `min_danmu_samples` are kept.
pub open spec fn kept_danmu(kept: nat, events: Seq<ParsedNotificationEvent>, min_danmu_samples: nat) -> Seq<ParsedNotificationEvent>
    decreases events.len(),
{
    if events.len() == 0 {
        Seq::empty()
    } else {
        let before = kept_danmu(kept, events.drop_last(), min_danmu_samples);
        if events.last().cmd@ == "DANMU_MSG"@ && kept + before.len() < min_danmu_samples {
            before.push(events.last())
        } else {
            before
        }
    }
}

/// The super chats among `events`, in order.
pub open spec fn super_chats(events: Seq<ParsedNotificationEvent>) -> Seq<ParsedNotificationEvent>
    decreases events.len(),
{
    if events.len() == 0 {
        Seq::empty()
    } else {
        let before = super_chats(events.drop_last());
        if events.last().cmd@ == "SUPER_CHAT_MESSAGE"@ {
            before.push(events.last())
        } else {
            before
        }
    }
}

/// `after` is `before` followed by the reports of `events`, all received at `recv_ms`.
pub open spec fn appended_reports(
    before: Seq<ProbeEventReport>,
    after: Seq<ProbeEventReport>,
    events: Seq<ParsedNotificationEvent>,
    recv_ms: i64,
) -> bool {
    &&& after.len() == before.len() + events.len()
    &&& after.subrange(0, before.len() as int) == before
    &&& forall|k: int| 0 <= k < events.len() ==> reports(#[trigger] after[before.len() + k], events[k], recv_ms)
}

/// `"已捕获 SC 样本"` or `"未捕获 SC 样本"`, followed by `；` and the way the
/// stream ended when it ended early.
pub open spec fn spec_super_chat_status(has_super_chat: bool, read_status: Option<Seq<char>>) -> Seq<char> {
    let head = if has_super_chat {
        "已捕获 SC 样本"@
    } else {
        "未捕获 SC 样本"@
    };
    match read_status {
        Some(s) => head + "；"@ + s,
        None => head,
    }
}

impl ProbeSamples {
    pub fn new() -> (r: Self)
        ensures
            r.danmu_samples@.len() == 0,
            r.super_chat_samples@.len() == 0,
            r.other_notifications == 0,
    {
        ProbeSamples {
            danmu_samples: Vec::new(),
            super_chat_samples: Vec::new(),
            other_notifications: 0,
        }
    }

    /// Whether enough danmaku samples are kept for the probe to stop.
    pub fn has_enough_danmu(&self, min_danmu_samples: usize) -> (r: bool)
        ensures
            r == (self.danmu_samples@.len() >= min_danmu_samples),
    {
        self.danmu_samples.len() >= min_danmu_samples
    }

    /// Takes the events of one frame, each received at `recv_ms`: danmaku are
    /// kept until `min_danmu_samples` are, every super chat is kept, and the
    /// frame's other notifications are counted.
    pub fn take_frame_at(&mut self, frame: FrameEvents, recv_ms: i64, min_danmu_samples: usize)
        requires
            old(self).other_notifications + frame.other_notifications <= usize::MAX,
            old(self).super_chat_samples@.len() + frame.events@.len() <= usize::MAX,
        ensures
            final(self).other_notifications == old(self).other_notifications
                + frame.other_notifications,
            appended_reports(
                old(self).danmu_samples@,
                final(self).danmu_samples@,
                kept_danmu(old(self).danmu_samples@.len(), frame.events@, min_danmu_samples as nat),
                recv_ms,
            ),
            appended_reports(
                old(self).super_chat_samples@,
                final(self).super_chat_samples@,
                super_chats(frame.events@),
                recv_ms,
            ),
    {
        self.other_notifications = self.other_notifications + frame.other_notifications;
        let ghost total = self.other_notifications;
        let ghost all = frame.events@;
        let ghost danmu0 = self.danmu_samples@;
        let ghost sc0 = self.super_chat_samples@;
        let mut rest = frame.events;
        let mut i: usize = 0;
        assert(all.take(0) =~= Seq::<ParsedNotificationEvent>::empty());
        assert(danmu0.subrange(0, danmu0.len() as int) =~= danmu0);
        assert(sc0.subrange(0, sc0.len() as int) =~= sc0);
        assert(all.skip(0) =~= all);
        while rest.len() > 0
            invariant
                rest@ == all.skip(i as int),
                i <= all.len(),
                self.other_notifications == total,
                sc0.len() + all.len() <= usize::MAX,
                appended_reports(
                    danmu0,
                    self.danmu_samples@,
                    kept_danmu(danmu0.len(), all.take(i as int), min_danmu_samples as nat),
                    recv_ms,
                ),
                appended_reports(sc0, self.super_chat_samples@, super_chats(all.take(i as int)), recv_ms),
                super_chats(all.take(i as int)).len() <= i,
            decreases rest@.len(),
        {
            let ghost pre = all.take(i as int);
            let ghost cur = all.take(i + 1);
            assert(cur.drop_last() =~= pre);
            assert(rest@[0] == all[i as int]);
            let event = rest.remove(0);
            assert(rest@ =~= all.skip(i + 1));
            assert(cur.last() == event);
            let ghost kd = kept_danmu(danmu0.len(), pre, min_danmu_samples as nat);
            let ghost ks = super_chats(pre);
            proof {
                reveal_strlit("DANMU_MSG");
                reveal_strlit("SUPER_CHAT_MESSAGE");
                assert("DANMU_MSG"@.len() != "SUPER_CHAT_MESSAGE"@.len());
            }
            let is_danmu = str_eq(event.cmd.as_str(), "DANMU_MSG");
            let is_super_chat = str_eq(event.cmd.as_str(), "SUPER_CHAT_MESSAGE");
            let ghost d_before = self.danmu_samples@;
            let ghost s_before = self.super_chat_samples@;
            let ghost e = event;
            if is_danmu && self.danmu_samples.len() < min_danmu_samples {
                let report = analyze_notification_event(event, recv_ms);
                self.danmu_samples.push(report);
                proof {
                    assert(kept_danmu(danmu0.len(), cur, min_danmu_samples as nat) == kd.push(e));
                    assert(self.danmu_samples@.subrange(0, danmu0.len() as int) =~= d_before.subrange(
                        0,
                        danmu0.len() as int,
                    ));
                    assert forall|k: int| 0 <= k < kd.push(e).len() implies reports(
                        #[trigger] self.danmu_samples@[danmu0.len() + k],
                        kd.push(e)[k],
                        recv_ms,
                    ) by {
                        if k < kd.len() {
                            assert(self.danmu_samples@[danmu0.len() + k] == d_before[danmu0.len() + k]);
                        }
                    }
                }
            } else if is_super_chat {
                let report = analyze_notification_event(event, recv_ms);
                self.super_chat_samples.push(report);
                proof {
                    assert(super_chats(cur) == ks.push(e));
                    assert(self.super_chat_samples@.subrange(0, sc0.len() as int) =~= s_before.subrange(
                        0,
                        sc0.len() as int,
                    ));
                    assert forall|k: int| 0 <= k < ks.push(e).len() implies reports(
                        #[trigger] self.super_chat_samples@[sc0.len() + k],
                        ks.push(e)[k],
                        recv_ms,
                    ) by {
                        if k < ks.len() {
                            assert(self.super_chat_samples@[sc0.len() + k] == s_before[sc0.len() + k]);
                        }
                    }
                }
            }
            i += 1;
        }
        assert(all.take(i as int) =~= all);
    }

    /// Takes the events of one frame, each stamped with the clock when the
    /// frame is taken.
    pub fn take_frame(&mut self, frame: FrameEvents, min_danmu_samples: usize)
        requires
            old(self).other_notifications + frame.other_notifications <= usize::MAX,
            old(self).super_chat_samples@.len() + frame.events@.len() <= usize::MAX,
        ensures
            final(self).other_notifications == old(self).other_notifications
                + frame.other_notifications,
            exists|recv_ms: i64|
                appended_reports(
                    old(self).danmu_samples@,
                    final(self).danmu_samples@,
                    kept_danmu(old(self).danmu_samples@.len(), frame.events@, min_danmu_samples as nat),
                    recv_ms,
                ) && appended_reports(
                    old(self).super_chat_samples@,
                    final(self).super_chat_samples@,
                    super_chats(frame.events@),
                    recv_ms,
                ),
    {
        let recv_ms = now_ms();
        self.take_frame_at(frame, recv_ms, min_danmu_samples);
    }

    /// The report of the probe of the room `connect` described, which ran
    /// from `started_ms` to `ended_ms` and, when the stream ended early,
    /// ended as `read_status` says.
    pub fn finish(
        self,
        connect: &ConnectInfo,
        started_ms: i64,
        ended_ms: i64,
        read_status: Option<String>,
    ) -> (r: ProbeReport)
        ensures
            r.connect.uid == connect.uid,
            r.connect.room_id == connect.room_id,
            r.connect.wsurl@ == connect.wsurl@,
            r.started_ms == started_ms,
            r.ended_ms == ended_ms,
            r.danmu_samples@ == self.danmu_samples@,
            r.super_chat_samples@ == self.super_chat_samples@,
            r.other_notifications == self.other_notifications,
            r.super_chat_status@ == spec_super_chat_status(
                self.super_chat_samples@.len() > 0,
                match read_status {
                    Some(s) => Some(s@),
                    None => None,
                },
            ),
            r.report_path is None,
    {
        let mut status = if self.super_chat_samples.len() == 0 {
            String::from_str("未捕获 SC 样本")
        } else {
            String::from_str("已捕获 SC 样本")
        };
        match read_status {
            Some(s) => {
                push_str(&mut status, "；");
                push_str(&mut status, s.as_str());
            },
            None => {},
        }
        ProbeReport {
            connect: ProbeConnectionInfo {
                uid: connect.uid,
                room_id: connect.room_id,
                wsurl: connect.wsurl.clone(),
            },
            started_ms,
            ended_ms,
            danmu_samples: self.danmu_samples,
            super_chat_samples: self.super_chat_samples,
            other_notifications: self.other_notifications,
            super_chat_status: status,
            report_path: None,
        }
    }
}

/// A probe never keeps more danmaku samples than it asked for.
pub proof fn law_probe_keeps_at_most_min_danmaku(kept: nat, events: Seq<ParsedNotificationEvent>, min_danmu_samples: nat)
    requires
        kept <= min_danmu_samples,
    ensures
        kept + kept_danmu(kept, events, min_danmu_samples).len() <= min_danmu_samples,
    decreases events.len(),
{
    if events.len() > 0 {
        law_probe_keeps_at_most_min_danmaku(kept, events.drop_last(), min_danmu_samples);
    }
}

/// A probe keeps every super chat of a frame, in order, and nothing else
/// as a super chat.
pub proof fn law_probe_keeps_every_super_chat(events: Seq<ParsedNotificationEvent>)
    ensures
        super_chats(events) == events.filter(|e: ParsedNotificationEvent| e.cmd@ == "SUPER_CHAT_MESSAGE"@),
    decreases events.len(),
{
    if events.len() > 0 {
        law_probe_keeps_every_super_chat(events.drop_last());
        reveal_with_fuel(Seq::filter, 2);
    } else {
        assert(events.filter(|e: ParsedNotificationEvent| e.cmd@ == "SUPER_CHAT_MESSAGE"@)
            =~= Seq::<ParsedNotificationEvent>::empty());
    }
}

/// The danmaku a probe keeps are danmaku of the frame, in order: the first
/// ones, up to the minimum it asked for.
pub proof fn law_probe_keeps_first_danmaku(kept: nat, events: Seq<ParsedNotificationEvent>, min_danmu_samples: nat)
    ensures
        kept_danmu(kept, events, min_danmu_samples) == events.filter(
            |e: ParsedNotificationEvent| e.cmd@ == "DANMU_MSG"@,
        ).take(kept_danmu(kept, events, min_danmu_samples).len() as int),
        kept_danmu(kept, events, min_danmu_samples).len() == (if kept >= min_danmu_samples {
            0
        } else if events.filter(|e: ParsedNotificationEvent| e.cmd@ == "DANMU_MSG"@).len()
            < min_danmu_samples - kept {
            events.filter(|e: ParsedNotificationEvent| e.cmd@ == "DANMU_MSG"@).len() as int
        } else {
            min_danmu_samples - kept
        }),
    decreases events.len(),
{
    let pred = |e: ParsedNotificationEvent| e.cmd@ == "DANMU_MSG"@;
    if events.len() > 0 {
        law_probe_keeps_first_danmaku(kept, events.drop_last(), min_danmu_samples);
        reveal_with_fuel(Seq::filter, 2);
        let f0 = events.drop_last().filter(pred);
        let k0 = kept_danmu(kept, events.drop_last(), min_danmu_samples);
        if pred(events.last()) && kept + k0.len() < min_danmu_samples {
            assert(k0.len() == f0.len());
            assert(f0 == f0.take(f0.len() as int));
            assert(f0.push(events.last()).take((k0.len() + 1) as int) =~= f0.push(events.last()));
        } else if pred(events.last()) {
            assert(f0.push(events.last()).take(k0.len() as int) =~= f0.take(k0.len() as int));
        }
    } else {
        assert(events.filter(pred) =~= Seq::<ParsedNotificationEvent>::empty());
    }
}

} // verus!
