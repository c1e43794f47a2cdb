//! The abstract state of the message store and what each of its operations
//! does to it.

use vstd::prelude::*;
use crate::models::DanmuMessage;
use crate::viewport::{
    spec_clamp_viewport_size, spec_clamp_viewport_start, spec_max_viewport_start,
    spec_scroll_viewport_start,
};

verus! {

/// The store as a mathematical value.
#[verifier::ext_equal]
pub struct StoreView {
    pub next_message_id: u64,
    pub main_capacity: usize,
    pub per_user_capacity: usize,
    pub main_viewport_size: usize,
    pub person_viewport_size: usize,
    pub main_start_index: usize,
    pub selected_uid: Option<Seq<char>>,
    pub anchor_message_id: Option<u64>,
    pub person_start_index: usize,
    pub person_manual_viewport: bool,
    pub hover_frozen: bool,
    pub connected: bool,
    pub connection_status: Seq<char>,
    /// The main message list, oldest first.
    pub messages: Seq<DanmuMessage>,
    /// Every message that can still be shown, by id.
    pub by_id: Map<u64, DanmuMessage>,
    /// The ids of each sender's cached messages, oldest first.
    pub ids_by_uid: Map<Seq<char>, Seq<u64>>,
}

/// The message marked as read.
pub open spec fn mark_read(m: DanmuMessage) -> DanmuMessage {
    DanmuMessage { read: true, ..m }
}

/// `m` marked read when its id is among `ids`.
pub open spec fn mark_if_listed(ids: Seq<u64>, id: u64, m: DanmuMessage) -> DanmuMessage {
    if ids.contains(id) {
        mark_read(m)
    } else {
        m
    }
}

/// `m` marked read when sender `uid` wrote it.
pub open spec fn mark_if_from(uid: Seq<char>, m: DanmuMessage) -> DanmuMessage {
    if m.uid@ == uid {
        mark_read(m)
    } else {
        m
    }
}

/// Position of the first `x` in `s`, or -1.
pub open spec fn find_index(s: Seq<u64>, x: u64) -> int
    decreases s.len(),
{
    if s.len() == 0 {
        -1
    } else if s[0] == x {
        0
    } else {
        let r = find_index(s.drop_first(), x);
        if r < 0 {
            -1
        } else {
            r + 1
        }
    }
}

/// Position of the first entry of `s` other than `x`, or -1.
pub open spec fn find_other(s: Seq<u64>, x: u64) -> int
    decreases s.len(),
{
    if s.len() == 0 {
        -1
    } else if s[0] != x {
        0
    } else {
        let r = find_other(s.drop_first(), x);
        if r < 0 {
            -1
        } else {
            r + 1
        }
    }
}

pub proof fn lemma_find_index(s: Seq<u64>, x: u64)
    ensures
        -1 <= find_index(s, x) < s.len(),
        find_index(s, x) >= 0 ==> s[find_index(s, x)] == x,
        find_index(s, x) < 0 <==> !s.contains(x),
        forall|j: int| 0 <= j < find_index(s, x) ==> s[j] != x,
    decreases s.len(),
{
    if s.len() > 0 {
        lemma_find_index(s.drop_first(), x);
        if s[0] != x && find_index(s.drop_first(), x) < 0 {
            assert forall|i: int| 0 <= i < s.len() implies s[i] != x by {
                if i > 0 {
                    assert(s.drop_first()[i - 1] == s[i]);
                }
            }
        }
        if s[0] != x {
            let r = find_index(s.drop_first(), x);
            assert forall|j: int| 0 <= j < find_index(s, x) implies s[j] != x by {
                if j > 0 {
                    assert(s.drop_first()[j - 1] == s[j]);
                }
            }
            if r >= 0 {
                assert(s.drop_first()[r] == s[r + 1]);
            }
        }
    }
}

pub proof fn lemma_find_other(s: Seq<u64>, x: u64)
    ensures
        -1 <= find_other(s, x) < s.len(),
        find_other(s, x) >= 0 ==> s[find_other(s, x)] != x,
        find_other(s, x) < 0 ==> forall|i: int| 0 <= i < s.len() ==> s[i] == x,
        forall|j: int| 0 <= j < find_other(s, x) ==> s[j] == x,
    decreases s.len(),
{
    if s.len() > 0 {
        lemma_find_other(s.drop_first(), x);
        if s[0] == x {
            let r = find_other(s.drop_first(), x);
            assert forall|j: int| 0 <= j < find_other(s, x) implies s[j] == x by {
                if j > 0 {
                    assert(s.drop_first()[j - 1] == s[j]);
                }
            }
            if r >= 0 {
                assert(s.drop_first()[r] == s[r + 1]);
            } else {
                assert forall|i: int| 0 <= i < s.len() implies s[i] == x by {
                    if i > 0 {
                        assert(s.drop_first()[i - 1] == s[i]);
                    }
                }
            }
        }
    }
}

/// Position of the first message with id `id`, or -1.
pub open spec fn find_message(s: Seq<DanmuMessage>, id: u64) -> int
    decreases s.len(),
{
    if s.len() == 0 {
        -1
    } else if s[0].message_id == id {
        0
    } else {
        let r = find_message(s.drop_first(), id);
        if r < 0 {
            -1
        } else {
            r + 1
        }
    }
}

pub proof fn lemma_find_message(s: Seq<DanmuMessage>, id: u64)
    ensures
        -1 <= find_message(s, id) < s.len(),
        find_message(s, id) >= 0 ==> s[find_message(s, id)].message_id == id,
        find_message(s, id) < 0 ==> forall|i: int| 0 <= i < s.len() ==> s[i].message_id != id,
        forall|j: int| 0 <= j < find_message(s, id) ==> s[j].message_id != id,
    decreases s.len(),
{
    if s.len() > 0 {
        lemma_find_message(s.drop_first(), id);
        if s[0].message_id != id {
            let r = find_message(s.drop_first(), id);
            assert forall|j: int| 0 <= j < find_message(s, id) implies s[j].message_id != id by {
                if j > 0 {
                    assert(s.drop_first()[j - 1] == s[j]);
                }
            }
            if r >= 0 {
                assert(s.drop_first()[r] == s[r + 1]);
            } else {
                assert forall|i: int| 0 <= i < s.len() implies s[i].message_id != id by {
                    if i > 0 {
                        assert(s.drop_first()[i - 1] == s[i]);
                    }
                }
            }
        }
    }
}

/// The first row at or after `start` that is not read (or the end of the list).
pub open spec fn advance_past_read(messages: Seq<DanmuMessage>, start: int) -> int
    decreases messages.len() - start,
{
    if 0 <= start < messages.len() && messages[start].read {
        advance_past_read(messages, start + 1)
    } else {
        start
    }
}

/// The messages of `ids`, in order, skipping ids that have no message.
pub open spec fn present_messages(ids: Seq<u64>, by_id: Map<u64, DanmuMessage>) -> Seq<DanmuMessage>
    decreases ids.len(),
{
    if ids.len() == 0 {
        Seq::empty()
    } else {
        let rest = present_messages(ids.drop_first(), by_id);
        if by_id.contains_key(ids[0]) {
            seq![by_id[ids[0]]] + rest
        } else {
            rest
        }
    }
}

/// The newest message among `ids` that has a message.
pub open spec fn last_present(ids: Seq<u64>, by_id: Map<u64, DanmuMessage>) -> Option<DanmuMessage>
    decreases ids.len(),
{
    if ids.len() == 0 {
        None
    } else if by_id.contains_key(ids.last()) {
        Some(by_id[ids.last()])
    } else {
        last_present(ids.drop_last(), by_id)
    }
}

/// `a - b`, or 0 when `b` is larger.
pub open spec fn saturating_sub(a: int, b: int) -> int {
    if a > b {
        a - b
    } else {
        0
    }
}

/// Where a panel of `size` rows over `ids` starts so that `anchor` shows on
/// its second row (its first row when it is the oldest message, or when the
/// panel has a single row), as long as the panel can stay full.
pub open spec fn anchored_start(ids: Seq<u64>, anchor: Option<u64>, size: int) -> int {
    match anchor {
        None => 0,
        Some(a) => if ids.len() == 0 {
            0
        } else {
            let latest = spec_max_viewport_start(ids.len() as int, size);
            let idx = find_index(ids, a);
            if idx < 0 {
                latest
            } else if size <= 1 {
                if idx < latest {
                    idx
                } else {
                    latest
                }
            } else if idx == 0 {
                0
            } else if idx > latest {
                latest
            } else {
                idx - 1
            }
        },
    }
}

/// Where `x` goes in the rising list `ids`: after every id not above it.
pub open spec fn insert_pos(ids: Seq<u64>, x: u64) -> int
    decreases ids.len(),
{
    if ids.len() == 0 || ids[0] > x {
        0
    } else {
        1 + insert_pos(ids.drop_first(), x)
    }
}

/// `ids` with `x` put in its place.
pub open spec fn insert_sorted(ids: Seq<u64>, x: u64) -> Seq<u64> {
    ids.insert(insert_pos(ids, x), x)
}

/// The ids rise strictly from oldest to newest.
pub open spec fn strictly_increasing(ids: Seq<u64>) -> bool {
    forall|i: int, j: int| 0 <= i < j < ids.len() ==> ids[i] < ids[j]
}

/// A strictly rising run of values below `n` has at most `n` entries.
pub proof fn lemma_increasing_len(s: Seq<u64>, n: int)
    requires
        strictly_increasing(s),
        0 <= n,
        forall|i: int| 0 <= i < s.len() ==> s[i] < n,
    ensures
        s.len() <= n,
{
    if s.len() > 0 {
        lemma_increasing_at_least_index(s, s.len() - 1);
        assert(s[s.len() - 1] < n);
    }
}

pub proof fn lemma_insert_pos(ids: Seq<u64>, x: u64)
    ensures
        0 <= insert_pos(ids, x) <= ids.len(),
        forall|j: int| 0 <= j < insert_pos(ids, x) ==> ids[j] <= x,
        insert_pos(ids, x) < ids.len() ==> ids[insert_pos(ids, x)] > x,
    decreases ids.len(),
{
    if ids.len() > 0 && ids[0] <= x {
        lemma_insert_pos(ids.drop_first(), x);
        assert forall|j: int| 0 <= j < insert_pos(ids, x) implies ids[j] <= x by {
            if j > 0 {
                assert(ids[j] == ids.drop_first()[j - 1]);
            }
        }
    }
}

/// Putting an id that is not in a rising list into its place keeps it rising.
pub proof fn lemma_insert_sorted(ids: Seq<u64>, x: u64)
    requires
        strictly_increasing(ids),
        !ids.contains(x),
    ensures
        strictly_increasing(insert_sorted(ids, x)),
        insert_sorted(ids, x).contains(x),
        insert_sorted(ids, x).len() == ids.len() + 1,
        forall|y: u64| #[trigger] insert_sorted(ids, x).contains(y) ==> y == x || ids.contains(y),
{
    lemma_insert_pos(ids, x);
    let p = insert_pos(ids, x);
    let r = insert_sorted(ids, x);
    assert forall|j: int| 0 <= j < ids.len() implies (j < p ==> ids[j] < x) && (j >= p ==> ids[j] > x) by {
        if j < p {
            assert(ids[j] != x);
        } else {
            assert(ids[p] > x);
            if j > p {
                assert(ids[p] < ids[j]);
            }
        }
    }
    assert forall|i: int, j: int| 0 <= i < j < r.len() implies r[i] < r[j] by {
        if j < p {
            assert(r[i] == ids[i] && r[j] == ids[j]);
        } else if j == p {
            assert(r[i] == ids[i]);
        } else if i < p {
            assert(r[i] == ids[i] && r[j] == ids[j - 1]);
        } else if i == p {
            assert(r[j] == ids[j - 1]);
        } else {
            assert(r[i] == ids[i - 1] && r[j] == ids[j - 1]);
        }
    }
    assert(r[p] == x);
    assert forall|y: u64| #[trigger] r.contains(y) implies y == x || ids.contains(y) by {
        let k = choose|k: int| 0 <= k < r.len() && r[k] == y;
        if k < p {
            assert(ids[k] == y);
        } else if k > p {
            assert(ids[k - 1] == y);
        }
    }
}

proof fn lemma_increasing_at_least_index(s: Seq<u64>, i: int)
    requires
        strictly_increasing(s),
        0 <= i < s.len(),
    ensures
        s[i] >= i,
    decreases i,
{
    if i > 0 {
        lemma_increasing_at_least_index(s, i - 1);
        assert(s[i - 1] < s[i]);
    }
}

/// The store right after it is made: no messages, default viewports, not
/// connected.
pub open spec fn fresh_store(main_capacity: usize, per_user_capacity: usize) -> StoreView {
    StoreView {
        next_message_id: 1,
        main_capacity,
        per_user_capacity,
        main_viewport_size: 22,
        person_viewport_size: 14,
        main_start_index: 0,
        selected_uid: None,
        anchor_message_id: None,
        person_start_index: 0,
        person_manual_viewport: false,
        hover_frozen: false,
        connected: false,
        connection_status: "未连接"@,
        messages: Seq::empty(),
        by_id: Map::empty(),
        ids_by_uid: Map::empty(),
    }
}

impl StoreView {
    /// Both viewports hold between 1 and 100 rows.
    pub open spec fn inv_sizes(self) -> bool {
        &&& 1 <= self.main_viewport_size <= 100
        &&& 1 <= self.person_viewport_size <= 100
    }

    /// Message ids rise along the main list, are all below the next id, and
    /// each main message is cached under its id for the same sender.
    pub open spec fn inv_messages(self) -> bool {
        &&& forall|i: int, j: int|
            0 <= i < j < self.messages.len() ==> #[trigger] self.messages[i].message_id
                < #[trigger] self.messages[j].message_id
        &&& forall|i: int|
            0 <= i < self.messages.len() ==> {
                let m = #[trigger] self.messages[i];
                &&& m.message_id < self.next_message_id
                &&& self.by_id.contains_key(m.message_id)
                &&& self.by_id[m.message_id].uid == m.uid
            }
    }

    /// Every cached message sits under its own id, below the next id.
    pub open spec fn inv_by_id(self) -> bool {
        forall|k: u64| #[trigger]
            self.by_id.contains_key(k) ==> self.by_id[k].message_id == k && k < self.next_message_id
    }

    /// Each sender's list rises strictly and holds only cached messages of that sender.
    pub open spec fn inv_index(self) -> bool {
        forall|u: Seq<char>| #[trigger]
            self.ids_by_uid.contains_key(u) ==> {
                let ids = self.ids_by_uid[u];
                &&& strictly_increasing(ids)
                &&& forall|i: int|
                    0 <= i < ids.len() ==> self.by_id.contains_key(#[trigger] ids[i])
                        && self.by_id[ids[i]].uid@ == u
            }
    }

    /// The anchor is a cached message of the selected sender.
    pub open spec fn inv_anchor(self) -> bool {
        match self.anchor_message_id {
            Some(a) => self.by_id.contains_key(a) && self.selected_uid == Some(self.by_id[a].uid@),
            None => true,
        }
    }

    /// What holds of the store in every state that its operations reach.
    pub open spec fn inv(self) -> bool {
        &&& self.next_message_id <= usize::MAX
        &&& self.inv_sizes()
        &&& self.main_start_index <= self.main_max_start()
        &&& self.inv_messages()
        &&& self.inv_by_id()
        &&& self.inv_index()
        &&& self.inv_anchor()
    }

    /// The person panel does not start past the last position at which it
    /// is full.
    pub open spec fn person_start_ok(self) -> bool {
        self.person_start_index <= spec_max_viewport_start(
            self.selected_user_ids().len() as int,
            self.person_viewport_size as int,
        )
    }

    /// The store keeps to its limits: the main list holds at most
    /// `main_capacity` messages, each sender's list at most
    /// `per_user_capacity` ids, and the person panel stays full.
    pub open spec fn bounded(self) -> bool {
        &&& self.messages.len() <= self.main_capacity
        &&& forall|u: Seq<char>| #[trigger]
            self.ids_by_uid.contains_key(u) ==> self.ids_by_uid[u].len() <= self.per_user_capacity
        &&& self.person_start_ok()
    }

    /// The ids of the selected sender's cached messages.
    pub open spec fn selected_user_ids(self) -> Seq<u64> {
        match self.selected_uid {
            Some(u) => if self.ids_by_uid.contains_key(u) {
                self.ids_by_uid[u]
            } else {
                Seq::empty()
            },
            None => Seq::empty(),
        }
    }

    pub open spec fn anchored_person_start(self) -> int {
        anchored_start(
            self.selected_user_ids(),
            self.anchor_message_id,
            self.person_viewport_size as int,
        )
    }

    pub open spec fn main_max_start(self) -> int {
        spec_max_viewport_start(self.messages.len() as int, self.main_viewport_size as int)
    }

    /// The main viewport shows the newest message and the list overflows it.
    pub open spec fn main_at_bottom(self) -> bool {
        self.messages.len() > self.main_viewport_size && self.main_start_index
            >= self.main_max_start()
    }

    pub open spec fn clamped_main_start(self) -> usize {
        spec_clamp_viewport_start(
            self.main_start_index as int,
            self.messages.len() as int,
            self.main_viewport_size as int,
        ) as usize
    }

    /// The rows of the main viewport.
    pub open spec fn main_visible(self) -> Seq<DanmuMessage> {
        let start = if self.main_start_index < self.messages.len() {
            self.main_start_index as int
        } else {
            self.messages.len() as int
        };
        let end = if self.main_start_index + self.main_viewport_size < self.messages.len() {
            self.main_start_index + self.main_viewport_size
        } else {
            self.messages.len() as int
        };
        self.messages.subrange(start, end)
    }

    pub open spec fn main_hidden_newer_count(self) -> int {
        saturating_sub(
            self.messages.len() as int,
            self.main_start_index + self.main_viewport_size,
        )
    }

    /// The ids in the person panel's window.
    pub open spec fn person_window(self) -> Seq<u64> {
        let ids = self.selected_user_ids();
        let start = if self.person_start_index < ids.len() {
            self.person_start_index as int
        } else {
            ids.len() as int
        };
        let end = if self.person_start_index + self.person_viewport_size < ids.len() {
            self.person_start_index + self.person_viewport_size
        } else {
            ids.len() as int
        };
        ids.subrange(start, end)
    }

    pub open spec fn person_visible(self) -> Seq<DanmuMessage> {
        present_messages(self.person_window(), self.by_id)
    }

    pub open spec fn person_hidden_newer_count(self) -> int {
        saturating_sub(
            self.selected_user_ids().len() as int,
            self.person_start_index + self.person_viewport_size,
        )
    }

    /// The nickname of the selected sender's newest cached message.
    pub open spec fn selected_nickname(self) -> Option<Seq<char>> {
        match last_present(self.selected_user_ids(), self.by_id) {
            Some(m) => Some(m.nickname@),
            None => None,
        }
    }

    // ---- operations ----
    /// Marks message `id` read and moves the main viewport past the read rows
    /// at its top.
    pub open spec fn ack_message(self, id: u64) -> StoreView {
        let by_id = if self.by_id.contains_key(id) {
            self.by_id.insert(id, mark_read(self.by_id[id]))
        } else {
            self.by_id
        };
        let k = find_message(self.messages, id);
        let messages = if k < 0 {
            self.messages
        } else {
            self.messages.update(k, mark_read(self.messages[k]))
        };
        StoreView { by_id, messages, ..self }.settle_main_after_reading()
    }

    /// Skips read rows at the top of the main viewport, then keeps it full.
    pub open spec fn settle_main_after_reading(self) -> StoreView {
        let start = advance_past_read(self.messages, self.main_start_index as int);
        StoreView {
            main_start_index: spec_clamp_viewport_start(
                start,
                self.messages.len() as int,
                self.main_viewport_size as int,
            ) as usize,
            ..self
        }
    }

    /// Marks every cached message of sender `uid` read.
    pub open spec fn ack_user_messages(self, uid: Seq<char>) -> StoreView {
        let ids = if self.ids_by_uid.contains_key(uid) {
            self.ids_by_uid[uid]
        } else {
            Seq::empty()
        };
        let by_id = self.by_id.map_entries(|k: u64, m: DanmuMessage| mark_if_listed(ids, k, m));
        let messages = self.messages.map_values(|m: DanmuMessage| mark_if_from(uid, m));
        StoreView { by_id, messages, ..self }.settle_main_after_reading()
    }

    /// Selects the sender of message `id` and anchors the person panel on it.
    /// A message that its sender's list no longer holds is put back into it,
    /// in order, and the list is trimmed again without dropping it, so that
    /// the panel can show the anchor.
    pub open spec fn select_user_anchor(self, id: u64) -> StoreView {
        if !self.by_id.contains_key(id) {
            self
        } else {
            let u = self.by_id[id].uid@;
            let v = StoreView {
                selected_uid: Some(u),
                anchor_message_id: Some(id),
                hover_frozen: false,
                person_manual_viewport: false,
                ..self
            };
            let ids = v.selected_user_ids();
            let v1 = if ids.contains(id) {
                v
            } else {
                StoreView {
                    ids_by_uid: v.ids_by_uid.insert(u, insert_sorted(ids, id)),
                    ..v
                }.trim_user_list(u, Some(id))
            };
            StoreView { person_start_index: v1.anchored_person_start() as usize, ..v1 }
        }
    }

    pub open spec fn set_person_panel_hover(self, value: bool) -> StoreView {
        let v = StoreView { hover_frozen: value, ..self };
        if !value && !self.person_manual_viewport {
            StoreView { person_start_index: v.anchored_person_start() as usize, ..v }
        } else {
            v
        }
    }

    pub open spec fn scroll_main_viewport(self, delta: int) -> StoreView {
        StoreView {
            main_start_index: spec_scroll_viewport_start(
                self.main_start_index as int,
                delta,
                self.messages.len() as int,
                self.main_viewport_size as int,
            ) as usize,
            ..self
        }
    }

    pub open spec fn scroll_person_viewport(self, delta: int) -> StoreView {
        let count = self.selected_user_ids().len();
        if count == 0 {
            self
        } else {
            StoreView {
                person_manual_viewport: true,
                person_start_index: spec_scroll_viewport_start(
                    self.person_start_index as int,
                    delta,
                    count as int,
                    self.person_viewport_size as int,
                ) as usize,
                ..self
            }
        }
    }

    pub open spec fn set_main_viewport_size(self, value: usize) -> StoreView {
        let pinned = self.main_at_bottom();
        let v = StoreView {
            main_viewport_size: spec_clamp_viewport_size(value as int) as usize,
            ..self
        };
        if pinned {
            StoreView { main_start_index: v.main_max_start() as usize, ..v }
        } else {
            StoreView { main_start_index: v.clamped_main_start(), ..v }
        }
    }

    pub open spec fn set_person_viewport_size(self, value: usize) -> StoreView {
        let v = StoreView {
            person_viewport_size: spec_clamp_viewport_size(value as int) as usize,
            ..self
        };
        if v.person_manual_viewport {
            StoreView {
                person_start_index: spec_clamp_viewport_start(
                    v.person_start_index as int,
                    v.selected_user_ids().len() as int,
                    v.person_viewport_size as int,
                ) as usize,
                ..v
            }
        } else {
            StoreView { person_start_index: v.anchored_person_start() as usize, ..v }
        }
    }

    pub open spec fn set_viewport_sizes(self, main: Option<usize>, person: Option<usize>) -> StoreView {
        let v = match main {
            Some(x) => self.set_main_viewport_size(x),
            None => self,
        };
        match person {
            Some(y) => v.set_person_viewport_size(y),
            None => v,
        }
    }

    /// Takes message `m`'s id out of its sender's list, keeping the person
    /// panel's position on the rows it showed.
    pub open spec fn remove_from_user_index(self, m: DanmuMessage) -> StoreView {
        let uid = m.uid@;
        let is_selected = self.selected_uid == Some(uid);
        if !self.ids_by_uid.contains_key(uid) {
            self
        } else {
            let ids = self.ids_by_uid[uid];
            let r = find_index(ids, m.message_id);
            if r < 0 {
                self
            } else {
                let ids2 = ids.remove(r);
                let s1 = if is_selected && r < self.person_start_index {
                    self.person_start_index - 1
                } else {
                    self.person_start_index as int
                };
                let s2 = if is_selected {
                    spec_clamp_viewport_start(s1, ids2.len() as int, self.person_viewport_size as int)
                } else {
                    s1
                };
                StoreView {
                    ids_by_uid: self.ids_by_uid.insert(uid, ids2),
                    person_start_index: s2 as usize,
                    ..self
                }
            }
        }
    }

    /// Drops the oldest main messages until the main list fits its capacity;
    /// the anchor message stays available to the person panel.
    pub open spec fn trim_main(self) -> StoreView
        decreases self.messages.len(),
    {
        if self.messages.len() <= self.main_capacity {
            self
        } else {
            let removed = self.messages[0];
            let v = StoreView { messages: self.messages.drop_first(), ..self };
            let v2 = if Some(removed.message_id) != self.anchor_message_id {
                StoreView { by_id: v.by_id.remove(removed.message_id), ..v }.remove_from_user_index(
                    removed,
                )
            } else {
                v
            };
            StoreView {
                main_start_index: saturating_sub(v2.main_start_index as int, 1) as usize,
                ..v2
            }.trim_main()
        }
    }

    /// Where the person panel starts after the id at `idx` left sender `uid`'s
    /// list, `remaining` ids being left: only the selected sender's panel
    /// moves, keeping to the rows it showed, as far as it stays full.
    pub open spec fn start_after_user_removal(self, uid: Seq<char>, idx: int, remaining: int) -> int {
        if self.selected_uid == Some(uid) {
            let s1 = if idx < self.person_start_index {
                self.person_start_index - 1
            } else {
                self.person_start_index as int
            };
            spec_clamp_viewport_start(s1, remaining, self.person_viewport_size as int)
        } else {
            self.person_start_index as int
        }
    }

    /// Drops ids from sender `uid`'s list until it fits the per-sender
    /// capacity, oldest first, but never the preserved id while another one
    /// is left.
    pub open spec fn trim_user_list(self, uid: Seq<char>, preserved: Option<u64>) -> StoreView
        decreases self.ids_by_uid[uid].len(),
    {
        let ids = self.ids_by_uid[uid];
        if !self.ids_by_uid.contains_key(uid) || ids.len() <= self.per_user_capacity {
            self
        } else {
            let idx = match preserved {
                Some(a) => if ids.contains(a) {
                    proof {
                        lemma_find_other(ids, a);
                    }
                    let j = find_other(ids, a);
                    if j < 0 {
                        0
                    } else {
                        j
                    }
                } else {
                    0
                },
                None => 0,
            };
            let ids2 = ids.remove(idx);
            StoreView {
                ids_by_uid: self.ids_by_uid.insert(uid, ids2),
                person_start_index: self.start_after_user_removal(uid, idx, ids2.len() as int) as usize,
                ..self
            }.trim_user_list(uid, preserved)
        }
    }

    pub open spec fn trim_user(self, uid: Seq<char>) -> StoreView {
        let preserved = if self.selected_uid == Some(uid) {
            self.anchor_message_id
        } else {
            None
        };
        self.trim_user_list(uid, preserved)
    }

    /// Re-anchors the person panel after sender `uid` received a message,
    /// unless the panel is frozen by hovering or scrolled by hand.
    pub open spec fn refresh_person_start(self, uid: Seq<char>) -> StoreView {
        if self.selected_uid != Some(uid) || self.anchor_message_id is None {
            self
        } else if !self.hover_frozen && !self.person_manual_viewport {
            StoreView { person_start_index: self.anchored_person_start() as usize, ..self }
        } else {
            self
        }
    }

    /// Adds the normalized message `m` (whose id is `next_message_id`).
    pub open spec fn ingest_message(self, m: DanmuMessage) -> StoreView {
        let pinned = self.main_at_bottom();
        let uid = m.uid@;
        let ids = if self.ids_by_uid.contains_key(uid) {
            self.ids_by_uid[uid]
        } else {
            Seq::empty()
        };
        let v1 = StoreView {
            next_message_id: (self.next_message_id + 1) as u64,
            messages: self.messages.push(m),
            by_id: self.by_id.insert(m.message_id, m),
            ids_by_uid: self.ids_by_uid.insert(uid, ids.push(m.message_id)),
            ..self
        };
        let v3 = v1.trim_main().trim_user(uid);
        let v4 = if pinned {
            StoreView { main_start_index: v3.main_max_start() as usize, ..v3 }
        } else {
            StoreView { main_start_index: v3.clamped_main_start(), ..v3 }
        };
        v4.refresh_person_start(uid)
    }
}

} // verus!
