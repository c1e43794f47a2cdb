//! The message store: the main message list with its viewport, the per-sender
//! history with its anchored person panel, and read marks.

use std::collections::{HashMap, VecDeque};
use vstd::prelude::*;
use crate::models::{
    normalize_incoming, normalize_error, normalized_as, message_time, timestamp_in_range,
    AppSnapshot, DanmuMessage, IncomingDanmuRaw, PersonPanelSnapshot,
};
use crate::store_model::{
    advance_past_read, find_index, find_message, find_other, fresh_store, insert_pos, insert_sorted, lemma_insert_pos, last_present,
    lemma_find_index, lemma_find_message, lemma_find_other, mark_if_from, mark_if_listed, mark_read, present_messages, saturating_sub, StoreView,
};
use crate::store_laws::{
    anchor_visible, same_person_panel, law_other_sender_leaves_person_panel,
    law_ingest_keeps_anchor_visible, law_select_user_anchor_shows_anchor,
    law_ingest_keeps_bounds, law_select_user_anchor_keeps_bounds, law_ingest_advances_next_id, law_select_user_anchor_keeps_invariant,
    law_ack_message_keeps_invariant, law_ack_user_messages_keeps_invariant,
    law_ingest_keeps_invariant,
};
use crate::text::str_eq;
use crate::viewport::{
    clamp_viewport_size, clamp_viewport_start, max_viewport_start, scroll_viewport_start,
    spec_clamp_viewport_start,
};

verus! {

broadcast use vstd::std_specs::hash::group_hash_axioms;

/// The cached message ids of one sender.
pub struct UserIds {
    uid: String,
    ids: VecDeque<u64>,
}

spec fn index_pairs(entries: Seq<UserIds>) -> Seq<(Seq<char>, Seq<u64>)> {
    Seq::new(entries.len(), |i: int| (entries[i].uid@, entries[i].ids@))
}

spec fn keys_unique(p: Seq<(Seq<char>, Seq<u64>)>) -> bool {
    forall|i: int, j: int| 0 <= i < p.len() && 0 <= j < p.len() && i != j ==> p[i].0 != p[j].0
}

spec fn pairs_map(p: Seq<(Seq<char>, Seq<u64>)>) -> Map<Seq<char>, Seq<u64>>
    decreases p.len(),
{
    if p.len() == 0 {
        Map::empty()
    } else {
        pairs_map(p.drop_last()).insert(p.last().0, p.last().1)
    }
}

proof fn lemma_pairs_map_contains(p: Seq<(Seq<char>, Seq<u64>)>, k: Seq<char>)
    ensures
        pairs_map(p).contains_key(k) <==> exists|i: int| 0 <= i < p.len() && p[i].0 == k,
    decreases p.len(),
{
    if p.len() > 0 {
        lemma_pairs_map_contains(p.drop_last(), k);
        if pairs_map(p).contains_key(k) && p.last().0 != k {
            let i = choose|i: int| 0 <= i < p.drop_last().len() && p.drop_last()[i].0 == k;
            assert(p[i].0 == k);
        }
        if exists|i: int| 0 <= i < p.len() && p[i].0 == k {
            let i = choose|i: int| 0 <= i < p.len() && p[i].0 == k;
            if i < p.len() - 1 {
                assert(p.drop_last()[i].0 == k);
            }
        }
    }
}

proof fn lemma_pairs_map_value(p: Seq<(Seq<char>, Seq<u64>)>, i: int)
    requires
        keys_unique(p),
        0 <= i < p.len(),
    ensures
        pairs_map(p).contains_key(p[i].0),
        pairs_map(p)[p[i].0] == p[i].1,
    decreases p.len(),
{
    if i < p.len() - 1 {
        let q = p.drop_last();
        assert(keys_unique(q)) by {
            assert forall|a: int, b: int| 0 <= a < q.len() && 0 <= b < q.len() && a != b implies q[a].0
                != q[b].0 by {
                assert(q[a] == p[a] && q[b] == p[b]);
            }
        }
        assert(q[i] == p[i]);
        lemma_pairs_map_value(q, i);
        assert(p.last().0 != p[i].0);
    }
}

proof fn lemma_pairs_map_update(p: Seq<(Seq<char>, Seq<u64>)>, i: int, v: Seq<u64>)
    requires
        keys_unique(p),
        0 <= i < p.len(),
    ensures
        pairs_map(p.update(i, (p[i].0, v))) =~= pairs_map(p).insert(p[i].0, v),
        keys_unique(p.update(i, (p[i].0, v))),
    decreases p.len(),
{
    let q = p.update(i, (p[i].0, v));
    assert(keys_unique(q)) by {
        assert forall|a: int, b: int| 0 <= a < q.len() && 0 <= b < q.len() && a != b implies q[a].0
            != q[b].0 by {
            assert(q[a].0 == p[a].0 && q[b].0 == p[b].0);
        }
    }
    if i == p.len() - 1 {
        assert(q.drop_last() =~= p.drop_last());
    } else {
        let pd = p.drop_last();
        assert(keys_unique(pd)) by {
            assert forall|a: int, b: int| 0 <= a < pd.len() && 0 <= b < pd.len() && a != b implies pd[a].0
                != pd[b].0 by {
                assert(pd[a] == p[a] && pd[b] == p[b]);
            }
        }
        assert(q.drop_last() =~= pd.update(i, (pd[i].0, v)));
        lemma_pairs_map_update(pd, i, v);
        assert(p.last().0 != p[i].0);
    }
}

proof fn lemma_pairs_map_push(p: Seq<(Seq<char>, Seq<u64>)>, k: Seq<char>, v: Seq<u64>)
    requires
        keys_unique(p),
        !pairs_map(p).contains_key(k),
    ensures
        pairs_map(p.push((k, v))) =~= pairs_map(p).insert(k, v),
        keys_unique(p.push((k, v))),
{
    lemma_pairs_map_contains(p, k);
    let q = p.push((k, v));
    assert(q.drop_last() =~= p);
    assert(keys_unique(q)) by {
        assert forall|a: int, b: int| 0 <= a < q.len() && 0 <= b < q.len() && a != b implies q[a].0
            != q[b].0 by {
            if a < p.len() && b < p.len() {
                assert(q[a] == p[a] && q[b] == p[b]);
            } else if a < p.len() {
                assert(q[a] == p[a]);
            } else {
                assert(q[b] == p[b]);
            }
        }
    }
}

/// The store of danmaku messages behind the overlay.
pub struct MessageStore {
    next_message_id: u64,
    main_capacity: usize,
    per_user_capacity: usize,
    main_viewport_size: usize,
    person_viewport_size: usize,
    main_start_index: usize,
    selected_uid: Option<String>,
    anchor_message_id: Option<u64>,
    person_start_index: usize,
    person_manual_viewport: bool,
    hover_frozen: bool,
    connected: bool,
    connection_status: String,
    messages: VecDeque<DanmuMessage>,
    by_id: HashMap<u64, DanmuMessage>,
    ids_by_uid: Vec<UserIds>,
}

pub open spec fn text_view(s: Option<String>) -> Option<Seq<char>> {
    match s {
        Some(t) => Some(t@),
        None => None,
    }
}

impl View for MessageStore {
    type V = StoreView;

    closed spec fn view(&self) -> StoreView {
        StoreView {
            next_message_id: self.next_message_id,
            main_capacity: self.main_capacity,
            per_user_capacity: self.per_user_capacity,
            main_viewport_size: self.main_viewport_size,
            person_viewport_size: self.person_viewport_size,
            main_start_index: self.main_start_index,
            selected_uid: text_view(self.selected_uid),
            anchor_message_id: self.anchor_message_id,
            person_start_index: self.person_start_index,
            person_manual_viewport: self.person_manual_viewport,
            hover_frozen: self.hover_frozen,
            connected: self.connected,
            connection_status: self.connection_status@,
            messages: self.messages@,
            by_id: self.by_id@,
            ids_by_uid: pairs_map(index_pairs(self.ids_by_uid@)),
        }
    }
}

/// The position of the first `x` in `ids`.
fn position_of(ids: &Vec<u64>, x: u64) -> (r: Option<usize>)
    ensures
        r matches Some(i) ==> i == find_index(ids@, x),
        r is None ==> find_index(ids@, x) < 0,
{
    proof {
        lemma_find_index(ids@, x);
    }
    let mut i: usize = 0;
    while i < ids.len()
        invariant
            i <= ids@.len(),
            forall|j: int| 0 <= j < i ==> ids@[j] != x,
            -1 <= find_index(ids@, x) < ids@.len(),
            find_index(ids@, x) >= 0 ==> ids@[find_index(ids@, x)] == x,
            find_index(ids@, x) < 0 <==> !ids@.contains(x),
            forall|j: int| 0 <= j < find_index(ids@, x) ==> ids@[j] != x,
        decreases ids@.len() - i,
    {
        if ids[i] == x {
            return Some(i);
        }
        i += 1;
    }
    None
}

/// The position of the first id other than `x` in `ids`.
fn position_of_other(ids: &Vec<u64>, x: u64) -> (r: Option<usize>)
    ensures
        r matches Some(i) ==> i == find_other(ids@, x),
        r is None ==> find_other(ids@, x) < 0,
{
    proof {
        lemma_find_other(ids@, x);
    }
    let mut i: usize = 0;
    while i < ids.len()
        invariant
            i <= ids@.len(),
            forall|j: int| 0 <= j < i ==> ids@[j] == x,
            -1 <= find_other(ids@, x) < ids@.len(),
            find_other(ids@, x) >= 0 ==> ids@[find_other(ids@, x)] != x,
            find_other(ids@, x) < 0 ==> forall|k: int| 0 <= k < ids@.len() ==> ids@[k] == x,
            forall|j: int| 0 <= j < find_other(ids@, x) ==> ids@[j] == x,
        decreases ids@.len() - i,
    {
        if ids[i] != x {
            return Some(i);
        }
        i += 1;
    }
    None
}

/// The ids of a deque, in order.
/// Where `x` goes in the rising list `ids`.
fn sorted_position(ids: &Vec<u64>, x: u64) -> (r: usize)
    ensures
        r == insert_pos(ids@, x),
{
    let mut k: usize = 0;
    assert(ids@.skip(0) =~= ids@);
    while k < ids.len() && ids[k] <= x
        invariant
            k <= ids@.len(),
            insert_pos(ids@, x) == k + insert_pos(ids@.skip(k as int), x),
        decreases ids@.len() - k,
    {
        let ghost rest = ids@.skip(k as int);
        assert(rest[0] == ids@[k as int]);
        assert(rest.drop_first() =~= ids@.skip(k + 1));
        k += 1;
    }
    proof {
        let rest = ids@.skip(k as int);
        if k < ids@.len() {
            assert(rest[0] == ids@[k as int]);
        } else {
            assert(rest.len() == 0);
        }
    }
    k
}

fn deque_to_vec(d: &VecDeque<u64>) -> (r: Vec<u64>)
    ensures
        r@ == d@,
{
    let mut out: Vec<u64> = Vec::new();
    let mut i: usize = 0;
    while i < d.len()
        invariant
            i <= d@.len(),
            out@ == d@.take(i as int),
        decreases d@.len() - i,
    {
        out.push(d[i]);
        i += 1;
        assert(out@ =~= d@.take(i as int));
    }
    assert(d@.take(d@.len() as int) =~= d@);
    out
}

/// `s` is the picture of the store in state `v` that the overlay renders.
pub open spec fn snapshot_of(v: StoreView, s: AppSnapshot) -> bool {
    &&& s.connected == v.connected
    &&& s.connection_status@ == v.connection_status
    &&& s.main_visible@ == v.main_visible()
    &&& s.main_hidden_newer_count == v.main_hidden_newer_count()
    &&& text_view(s.person_panel.selected_uid) == v.selected_uid
    &&& text_view(s.person_panel.selected_nickname) == v.selected_nickname()
    &&& s.person_panel.anchor_message_id == v.anchor_message_id
    &&& s.person_panel.hover_frozen == v.hover_frozen
    &&& s.person_panel.visible_messages@ == v.person_visible()
    &&& s.person_panel.hidden_newer_count == v.person_hidden_newer_count()
}

/// `count - (start + size)`, or 0.
fn rows_after_window(count: usize, start: usize, size: usize) -> (r: usize)
    ensures
        r == saturating_sub(count as int, start + size),
{
    if start >= count {
        0
    } else {
        let rest = count - start;
        if rest > size {
            rest - size
        } else {
            0
        }
    }
}

/// The bounds of the window of `size` rows from `start` over `count` rows.
fn window_bounds(count: usize, start: usize, size: usize) -> (r: (usize, usize))
    ensures
        r.0 == (if start < count {
            start as int
        } else {
            count as int
        }),
        r.1 == (if start + size < count {
            start + size
        } else {
            count as int
        }),
        r.0 <= r.1 <= count,
{
    let first = if start < count {
        start
    } else {
        count
    };
    let end = if size < count - first {
        first + size
    } else {
        count
    };
    (first, end)
}

impl MessageStore {
    /// The entry of sender `uid` in the sender index.
    fn find_user(&self, uid: &str) -> (r: Option<usize>)
        requires
            self.index_ok(),
        ensures
            r matches Some(i) ==> i < self.ids_by_uid@.len() && self.ids_by_uid@[i as int].uid@ == uid@
                && self@.ids_by_uid.contains_key(uid@) && self@.ids_by_uid[uid@]
                == self.ids_by_uid@[i as int].ids@,
            r is None ==> !self@.ids_by_uid.contains_key(uid@),
    {
        let mut i: usize = 0;
        while i < self.ids_by_uid.len()
            invariant
                self.index_ok(),
                i <= self.ids_by_uid@.len(),
                forall|j: int| 0 <= j < i ==> self.ids_by_uid@[j].uid@ != uid@,
            decreases self.ids_by_uid@.len() - i,
        {
            if str_eq(self.ids_by_uid[i].uid.as_str(), uid) {
                proof {
                    lemma_pairs_map_value(index_pairs(self.ids_by_uid@), i as int);
                }
                return Some(i);
            }
            i += 1;
        }
        proof {
            lemma_pairs_map_contains(index_pairs(self.ids_by_uid@), uid@);
            if self@.ids_by_uid.contains_key(uid@) {
                let k = choose|k: int|
                    0 <= k < index_pairs(self.ids_by_uid@).len() && index_pairs(self.ids_by_uid@)[k].0
                        == uid@;
                assert(self.ids_by_uid@[k].uid@ == uid@);
            }
        }
        None
    }

    fn selected_user_ids(&self) -> (r: Vec<u64>)
        requires
            self.index_ok(),
        ensures
            r@ == self@.selected_user_ids(),
    {
        match &self.selected_uid {
            Some(uid) => match self.find_user(uid.as_str()) {
                Some(i) => deque_to_vec(&self.ids_by_uid[i].ids),
                None => Vec::new(),
            },
            None => Vec::new(),
        }
    }

    fn compute_anchored_person_start(&self) -> (r: usize)
        requires
            self.index_ok(),
        ensures
            r == self@.anchored_person_start(),
    {
        let user_ids = self.selected_user_ids();
        let anchor_id = match self.anchor_message_id {
            Some(a) => a,
            None => {
                return 0;
            },
        };
        if user_ids.len() == 0 {
            return 0;
        }
        let latest_start = max_viewport_start(user_ids.len(), self.person_viewport_size);
        let anchor_index = match position_of(&user_ids, anchor_id) {
            Some(i) => i,
            None => {
                return latest_start;
            },
        };
        if self.person_viewport_size <= 1 {
            return if anchor_index < latest_start {
                anchor_index
            } else {
                latest_start
            };
        }
        if anchor_index == 0 {
            return 0;
        }
        if anchor_index > latest_start {
            return latest_start;
        }
        anchor_index - 1
    }

    fn is_main_viewport_at_bottom(&self) -> (r: bool)
        ensures
            r == self@.main_at_bottom(),
    {
        self.messages.len() > self.main_viewport_size && self.main_start_index >= max_viewport_start(
            self.messages.len(),
            self.main_viewport_size,
        )
    }

    fn pin_main_viewport_to_bottom(&mut self)
        requires
            old(self).index_ok(),
        ensures
            final(self).index_ok(),
            final(self)@ == (StoreView {
                main_start_index: old(self)@.main_max_start() as usize,
                ..old(self)@
            }),
    {
        self.main_start_index = max_viewport_start(self.messages.len(), self.main_viewport_size);
        assert(self@ =~= StoreView {
            main_start_index: old(self)@.main_max_start() as usize,
            ..old(self)@
        });
    }

    fn clamp_main_viewport_start(&mut self)
        requires
            old(self).index_ok(),
        ensures
            final(self).index_ok(),
            final(self)@ == (StoreView {
                main_start_index: old(self)@.clamped_main_start(),
                ..old(self)@
            }),
    {
        self.main_start_index = clamp_viewport_start(
            self.main_start_index,
            self.messages.len(),
            self.main_viewport_size,
        );
        assert(self@ =~= StoreView {
            main_start_index: old(self)@.clamped_main_start(),
            ..old(self)@
        });
    }

    fn main_visible(&self) -> (r: Vec<DanmuMessage>)
        ensures
            r@ == self@.main_visible(),
    {
        let (first, end) = window_bounds(
            self.messages.len(),
            self.main_start_index,
            self.main_viewport_size,
        );
        let mut out: Vec<DanmuMessage> = Vec::new();
        let mut i: usize = first;
        while i < end
            invariant
                first <= i <= end <= self.messages@.len(),
                out@ == self.messages@.subrange(first as int, i as int),
            decreases end - i,
        {
            out.push(self.messages[i].duplicate());
            i += 1;
            assert(out@ =~= self.messages@.subrange(first as int, i as int));
        }
        out
    }

    fn person_panel(&self) -> (r: PersonPanelSnapshot)
        requires
            self.index_ok(),
        ensures
            text_view(r.selected_uid) == self@.selected_uid,
            text_view(r.selected_nickname) == self@.selected_nickname(),
            r.anchor_message_id == self@.anchor_message_id,
            r.hover_frozen == self@.hover_frozen,
            r.visible_messages@ == self@.person_visible(),
            r.hidden_newer_count == self@.person_hidden_newer_count(),
    {
        let user_ids = self.selected_user_ids();
        let (first, end) = window_bounds(
            user_ids.len(),
            self.person_start_index,
            self.person_viewport_size,
        );
        let ghost window = user_ids@.subrange(first as int, end as int);
        assert(window =~= self@.person_window());
        let mut visible: Vec<DanmuMessage> = Vec::new();
        let mut i: usize = first;
        assert(window.skip(0) =~= window);
        while i < end
            invariant
                first <= i <= end <= user_ids@.len(),
                window == user_ids@.subrange(first as int, end as int),
                present_messages(window, self.by_id@) == visible@ + present_messages(
                    window.skip(i - first),
                    self.by_id@,
                ),
            decreases end - i,
        {
            let ghost rest = window.skip(i - first);
            assert(rest[0] == user_ids@[i as int]);
            assert(rest.drop_first() =~= window.skip(i + 1 - first));
            let id = user_ids[i];
            match self.by_id.get(&id) {
                Some(m) => {
                    visible.push(m.duplicate());
                    assert(visible@ + present_messages(window.skip(i + 1 - first), self.by_id@)
                        =~= visible@.drop_last() + present_messages(rest, self.by_id@));
                },
                None => {},
            }
            i += 1;
        }
        assert(window.skip(end - first) =~= Seq::<u64>::empty());
        assert(visible@ =~= visible@ + present_messages(Seq::<u64>::empty(), self.by_id@));
        let selected_uid = match &self.selected_uid {
            Some(u) => Some(u.clone()),
            None => None,
        };
        PersonPanelSnapshot {
            selected_uid,
            selected_nickname: self.selected_nickname(&user_ids),
            anchor_message_id: self.anchor_message_id,
            hover_frozen: self.hover_frozen,
            visible_messages: visible,
            hidden_newer_count: rows_after_window(
                user_ids.len(),
                self.person_start_index,
                self.person_viewport_size,
            ),
        }
    }

    fn selected_nickname(&self, user_ids: &Vec<u64>) -> (r: Option<String>)
        ensures
            r == (match last_present(user_ids@, self.by_id@) {
                Some(m) => Some(m.nickname),
                None => None::<String>,
            }),
    {
        let mut j: usize = user_ids.len();
        assert(user_ids@.take(j as int) =~= user_ids@);
        while j > 0
            invariant
                j <= user_ids@.len(),
                last_present(user_ids@, self.by_id@) == last_present(
                    user_ids@.take(j as int),
                    self.by_id@,
                ),
            decreases j,
        {
            let ghost pre = user_ids@.take(j as int);
            assert(pre.last() == user_ids@[j - 1]);
            assert(pre.drop_last() =~= user_ids@.take(j - 1));
            match self.by_id.get(&user_ids[j - 1]) {
                Some(m) => {
                    return Some(m.nickname.clone());
                },
                None => {},
            }
            j -= 1;
        }
        None
    }

    pub fn snapshot(&self) -> (r: AppSnapshot)
        requires
            self.wf(),
        ensures
            snapshot_of(self@, r),
    {
        AppSnapshot {
            connected: self.connected,
            connection_status: self.connection_status.clone(),
            main_visible: self.main_visible(),
            main_hidden_newer_count: rows_after_window(
                self.messages.len(),
                self.main_start_index,
                self.main_viewport_size,
            ),
            person_panel: self.person_panel(),
        }
    }

    /// The main row holding message `id`.
    fn find_main_row(&self, id: u64) -> (r: Option<usize>)
        ensures
            r matches Some(i) ==> i == find_message(self@.messages, id) && i < self.messages@.len(),
            r is None ==> find_message(self@.messages, id) < 0,
    {
        proof {
            lemma_find_message(self@.messages, id);
        }
        let mut i: usize = 0;
        while i < self.messages.len()
            invariant
                i <= self.messages@.len(),
                forall|j: int| 0 <= j < i ==> self.messages@[j].message_id != id,
                -1 <= find_message(self@.messages, id) < self.messages@.len(),
                find_message(self@.messages, id) >= 0 ==> self@.messages[find_message(
                    self@.messages,
                    id,
                )].message_id == id,
                forall|j: int|
                    0 <= j < find_message(self@.messages, id) ==> self.messages@[j].message_id != id,
                find_message(self@.messages, id) < 0 ==> forall|k: int|
                    0 <= k < self.messages@.len() ==> self.messages@[k].message_id != id,
            decreases self.messages@.len() - i,
        {
            if self.messages[i].message_id == id {
                return Some(i);
            }
            i += 1;
        }
        None
    }

    /// Marks the main row at `i` read.
    fn mark_main_row_read(&mut self, i: usize)
        requires
            old(self).index_ok(),
            i < old(self).messages@.len(),
        ensures
            final(self).index_ok(),
            final(self)@ == (StoreView {
                messages: old(self)@.messages.update(i as int, mark_read(old(self)@.messages[i as int])),
                ..old(self)@
            }),
    {
        match self.messages.remove(i) {
            Some(mut m) => {
                m.read = true;
                self.messages.insert(i, m);
            },
            None => {},
        }
        assert(self@ =~= StoreView {
            messages: old(self)@.messages.update(i as int, mark_read(old(self)@.messages[i as int])),
            ..old(self)@
        });
    }

    /// Marks message `id` read in the by-id table, if it is there.
    fn mark_cached_read(&mut self, id: u64)
        requires
            old(self).index_ok(),
        ensures
            final(self).index_ok(),
            final(self)@ == (StoreView {
                by_id: if old(self)@.by_id.contains_key(id) {
                    old(self)@.by_id.insert(id, mark_read(old(self)@.by_id[id]))
                } else {
                    old(self)@.by_id
                },
                ..old(self)@
            }),
    {
        let marked = match self.by_id.get(&id) {
            Some(m) => {
                let mut c = m.duplicate();
                c.read = true;
                Some(c)
            },
            None => None,
        };
        match marked {
            Some(c) => {
                self.by_id.insert(id, c);
            },
            None => {},
        }
        assert(self@ =~= StoreView {
            by_id: if old(self)@.by_id.contains_key(id) {
                old(self)@.by_id.insert(id, mark_read(old(self)@.by_id[id]))
            } else {
                old(self)@.by_id
            },
            ..old(self)@
        });
    }

    fn settle_main_after_reading(&mut self)
        requires
            old(self).index_ok(),
        ensures
            final(self).index_ok(),
            final(self)@ == old(self)@.settle_main_after_reading(),
    {
        let ghost target = advance_past_read(self@.messages, self.main_start_index as int);
        while self.main_start_index < self.messages.len() && self.messages[self.main_start_index].read
            invariant
                self.index_ok(),
                self.messages == old(self).messages,
                target == advance_past_read(self@.messages, self.main_start_index as int),
                self@ == (StoreView { main_start_index: self.main_start_index, ..old(self)@ }),
            decreases self.messages@.len() - self.main_start_index,
        {
            self.main_start_index = self.main_start_index + 1;
            assert(self@ =~= StoreView { main_start_index: self.main_start_index, ..old(self)@ });
        }
        self.clamp_main_viewport_start();
        assert(self@ =~= old(self)@.settle_main_after_reading());
    }

    pub fn ack_message(&mut self, message_id: u64)
        requires
            old(self).wf(),
        ensures
            final(self).wf(),
            final(self)@ == old(self)@.ack_message(message_id),
    {
        self.mark_cached_read(message_id);
        match self.find_main_row(message_id) {
            Some(i) => {
                self.mark_main_row_read(i);
            },
            None => {},
        }
        self.settle_main_after_reading();
        proof {
            law_ack_message_keeps_invariant(old(self)@, message_id);
        }
    }

    pub fn ack_user_messages(&mut self, uid: &str)
        requires
            old(self).wf(),
        ensures
            final(self).wf(),
            final(self)@ == old(self)@.ack_user_messages(uid@),
    {
        let ghost ids_spec = if old(self)@.ids_by_uid.contains_key(uid@) {
            old(self)@.ids_by_uid[uid@]
        } else {
            Seq::empty()
        };
        let ids: Vec<u64> = match self.find_user(uid) {
            Some(i) => deque_to_vec(&self.ids_by_uid[i].ids),
            None => Vec::new(),
        };
        assert(ids@ =~= ids_spec);
        let ghost marked = |k: u64, m: DanmuMessage| mark_if_listed(ids_spec, k, m);
        let mut j: usize = 0;
        while j < ids.len()
            invariant
                self.index_ok(),
                j <= ids@.len(),
                ids@ == ids_spec,
                self@ == (StoreView { by_id: self@.by_id, ..old(self)@ }),
                self@.by_id.dom() == old(self)@.by_id.dom(),
                forall|k: u64| #[trigger]
                    self@.by_id.contains_key(k) ==> self@.by_id[k] == (if ids@.take(j as int).contains(
                        k,
                    ) {
                        mark_read(old(self)@.by_id[k])
                    } else {
                        old(self)@.by_id[k]
                    }),
            decreases ids@.len() - j,
        {
            let ghost before = self@;
            self.mark_cached_read(ids[j]);
            j += 1;
            proof {
                assert forall|k: u64| #[trigger]
                    self@.by_id.contains_key(k) implies self@.by_id[k] == (if ids@.take(
                        j as int,
                    ).contains(k) {
                        mark_read(old(self)@.by_id[k])
                    } else {
                        old(self)@.by_id[k]
                    }) by {
                    let prev = ids@.take(j - 1);
                    let cur = ids@.take(j as int);
                    if k == ids@[j - 1] {
                        assert(cur[j - 1] == k);
                    } else {
                        if cur.contains(k) {
                            let w = choose|w: int| 0 <= w < cur.len() && cur[w] == k;
                            assert(prev[w] == k);
                        }
                        if prev.contains(k) {
                            let w = choose|w: int| 0 <= w < prev.len() && prev[w] == k;
                            assert(cur[w] == k);
                        }
                    }
                }
                assert(self@.by_id.dom() =~= old(self)@.by_id.dom());
            }
        }
        assert(ids@.take(ids@.len() as int) =~= ids@);
        assert(self@.by_id =~= old(self)@.by_id.map_entries(marked));
        let ghost after_cache = self@;
        let ghost unmarked = |m: DanmuMessage| mark_if_from(uid@, m);
        let mut i: usize = 0;
        while i < self.messages.len()
            invariant
                self.index_ok(),
                i <= self.messages@.len(),
                self.messages@.len() == old(self).messages@.len(),
                self@ == (StoreView { messages: self@.messages, ..after_cache }),
                forall|k: int| 0 <= k < i ==> self.messages@[k] == mark_if_from(uid@, old(self)@.messages[k]),
                forall|k: int|
                    i <= k < self.messages@.len() ==> self.messages@[k] == old(self)@.messages[k],
            decreases self.messages@.len() - i,
        {
            let ghost orig = old(self)@.messages[i as int];
            assert(self.messages@[i as int] == orig);
            let same = str_eq(self.messages[i].uid.as_str(), uid);
            assert(same == (orig.uid@ == uid@));
            if same {
                self.mark_main_row_read(i);
                assert(self.messages@[i as int] == mark_read(orig));
                assert(self.messages@[i as int] == mark_if_from(uid@, orig));
            } else {
                assert(self.messages@[i as int] == mark_if_from(uid@, orig));
            }
            i += 1;
        }
        assert(self@.messages =~= old(self)@.messages.map_values(unmarked));
        self.settle_main_after_reading();
        assert(self@ =~= old(self)@.ack_user_messages(uid@));
        proof {
            law_ack_user_messages_keeps_invariant(old(self)@, uid@);
        }
    }

    /// Selects the sender of message `message_id` and anchors the person
    /// panel on it; a message whose id its sender's list no longer holds is
    /// put back into that list first.
    pub fn select_user_anchor(&mut self, message_id: u64)
        requires
            old(self).wf(),
        ensures
            final(self).wf(),
            final(self)@ == old(self)@.select_user_anchor(message_id),
            old(self)@.by_id.contains_key(message_id) && old(self)@.per_user_capacity >= 1
                ==> anchor_visible(final(self)@),
    {
        proof {
            law_select_user_anchor_keeps_invariant(old(self)@, message_id);
            law_select_user_anchor_keeps_bounds(old(self)@, message_id);
            if old(self)@.by_id.contains_key(message_id) && old(self)@.per_user_capacity >= 1 {
                law_select_user_anchor_shows_anchor(old(self)@, message_id);
            }
        }
        let uid = match self.by_id.get(&message_id) {
            Some(message) => message.uid.clone(),
            None => {
                return;
            },
        };
        self.selected_uid = Some(uid.clone());
        self.anchor_message_id = Some(message_id);
        self.hover_frozen = false;
        self.person_manual_viewport = false;
        let ghost v0 = self@;
        assert(v0 =~= StoreView {
            selected_uid: Some(old(self)@.by_id[message_id].uid@),
            anchor_message_id: Some(message_id),
            hover_frozen: false,
            person_manual_viewport: false,
            ..old(self)@
        });
        let ids = self.selected_user_ids();
        proof {
            lemma_find_index(ids@, message_id);
        }
        if position_of(&ids, message_id).is_none() {
            self.insert_user_id(&uid, message_id);
            assert(self@ == StoreView {
                ids_by_uid: v0.ids_by_uid.insert(uid@, insert_sorted(ids@, message_id)),
                ..v0
            });
            self.trim_user_capacity(uid.as_str());
        }
        let ghost v1 = self@;
        self.person_start_index = self.compute_anchored_person_start();
        assert(self@ =~= StoreView { person_start_index: v1.anchored_person_start() as usize, ..v1 });
    }

    pub fn set_person_panel_hover(&mut self, value: bool)
        requires
            old(self).wf(),
        ensures
            final(self).wf(),
            final(self)@ == old(self)@.set_person_panel_hover(value),
    {
        self.hover_frozen = value;
        if !value && !self.person_manual_viewport {
            self.person_start_index = self.compute_anchored_person_start();
        }
        assert(self@ =~= old(self)@.set_person_panel_hover(value));
    }

    pub fn scroll_person_viewport(&mut self, delta: isize)
        requires
            old(self).wf(),
        ensures
            final(self).wf(),
            final(self)@ == old(self)@.scroll_person_viewport(delta as int),
    {
        let user_count = self.selected_user_ids().len();
        if user_count == 0 {
            return;
        }
        self.person_manual_viewport = true;
        self.person_start_index = scroll_viewport_start(
            self.person_start_index,
            delta,
            user_count,
            self.person_viewport_size,
        );
        assert(self@ =~= old(self)@.scroll_person_viewport(delta as int));
    }

    pub fn set_viewport_sizes(
        &mut self,
        main_viewport_size: Option<usize>,
        person_viewport_size: Option<usize>,
    )
        requires
            old(self).wf(),
        ensures
            final(self).wf(),
            final(self)@ == old(self)@.set_viewport_sizes(main_viewport_size, person_viewport_size),
    {
        if let Some(value) = main_viewport_size {
            let keep_main_pinned_to_bottom = self.is_main_viewport_at_bottom();
            self.main_viewport_size = clamp_viewport_size(value);
            if keep_main_pinned_to_bottom {
                self.pin_main_viewport_to_bottom();
            } else {
                self.clamp_main_viewport_start();
            }
        }
        let ghost mid = self@;
        assert(mid =~= match main_viewport_size {
            Some(x) => old(self)@.set_main_viewport_size(x),
            None => old(self)@,
        });
        if let Some(value) = person_viewport_size {
            self.person_viewport_size = clamp_viewport_size(value);
            if self.person_manual_viewport {
                self.person_start_index = clamp_viewport_start(
                    self.person_start_index,
                    self.selected_user_ids().len(),
                    self.person_viewport_size,
                );
            } else {
                self.person_start_index = self.compute_anchored_person_start();
            }
            assert(self@ =~= mid.set_person_viewport_size(value));
        }
    }

    /// Puts `id` into its place in sender `uid`'s list, creating the list if needed.
    fn insert_user_id(&mut self, uid: &String, id: u64)
        requires
            old(self).index_ok(),
        ensures
            final(self).index_ok(),
            final(self)@ == (StoreView {
                ids_by_uid: old(self)@.ids_by_uid.insert(
                    uid@,
                    insert_sorted(
                        if old(self)@.ids_by_uid.contains_key(uid@) {
                            old(self)@.ids_by_uid[uid@]
                        } else {
                            Seq::empty()
                        },
                        id,
                    ),
                ),
                ..old(self)@
            }),
    {
        match self.find_user(uid.as_str()) {
            Some(i) => {
                let ids = deque_to_vec(&self.ids_by_uid[i].ids);
                let pos = sorted_position(&ids, id);
                proof {
                    lemma_insert_pos(ids@, id);
                }
                self.ids_by_uid[i].ids.insert(pos, id);
                proof {
                    let p = index_pairs(old(self).ids_by_uid@);
                    let l = insert_sorted(old(self).ids_by_uid@[i as int].ids@, id);
                    assert(index_pairs(self.ids_by_uid@) =~= p.update(i as int, (p[i as int].0, l)));
                    lemma_pairs_map_update(p, i as int, l);
                }
            },
            None => {
                let mut ids: VecDeque<u64> = VecDeque::new();
                ids.push_back(id);
                self.ids_by_uid.push(UserIds { uid: uid.clone(), ids });
                proof {
                    let p = index_pairs(old(self).ids_by_uid@);
                    assert(index_pairs(self.ids_by_uid@) =~= p.push((uid@, seq![id])));
                    assert(insert_sorted(Seq::<u64>::empty(), id) =~= seq![id]);
                    lemma_pairs_map_push(p, uid@, seq![id]);
                }
            },
        }
        assert(self@ =~= StoreView {
            ids_by_uid: old(self)@.ids_by_uid.insert(
                uid@,
                insert_sorted(
                    if old(self)@.ids_by_uid.contains_key(uid@) {
                        old(self)@.ids_by_uid[uid@]
                    } else {
                        Seq::empty()
                    },
                    id,
                ),
            ),
            ..old(self)@
        });
    }

    /// Appends `id` to sender `uid`'s list, creating the list if needed.
    fn push_user_id(&mut self, uid: &String, id: u64)
        requires
            old(self).index_ok(),
        ensures
            final(self).index_ok(),
            final(self)@ == (StoreView {
                ids_by_uid: old(self)@.ids_by_uid.insert(
                    uid@,
                    (if old(self)@.ids_by_uid.contains_key(uid@) {
                        old(self)@.ids_by_uid[uid@]
                    } else {
                        Seq::empty()
                    }).push(id),
                ),
                ..old(self)@
            }),
    {
        match self.find_user(uid.as_str()) {
            Some(i) => {
                self.ids_by_uid[i].ids.push_back(id);
                proof {
                    let p = index_pairs(old(self).ids_by_uid@);
                    assert(index_pairs(self.ids_by_uid@) =~= p.update(
                        i as int,
                        (p[i as int].0, old(self).ids_by_uid@[i as int].ids@.push(id)),
                    ));
                    lemma_pairs_map_update(p, i as int, old(self).ids_by_uid@[i as int].ids@.push(id));
                }
            },
            None => {
                let mut ids: VecDeque<u64> = VecDeque::new();
                ids.push_back(id);
                self.ids_by_uid.push(UserIds { uid: uid.clone(), ids });
                proof {
                    let p = index_pairs(old(self).ids_by_uid@);
                    assert(index_pairs(self.ids_by_uid@) =~= p.push((uid@, seq![id])));
                    assert(seq![id] =~= Seq::<u64>::empty().push(id));
                    lemma_pairs_map_push(p, uid@, seq![id]);
                }
            },
        }
        assert(self@ =~= StoreView {
            ids_by_uid: old(self)@.ids_by_uid.insert(
                uid@,
                (if old(self)@.ids_by_uid.contains_key(uid@) {
                    old(self)@.ids_by_uid[uid@]
                } else {
                    Seq::empty()
                }).push(id),
            ),
            ..old(self)@
        });
    }

    /// Replaces the list of the sender at entry `i` by the list without its `r`th id.
    fn remove_user_id_at(&mut self, i: usize, r: usize)
        requires
            old(self).index_ok(),
            i < old(self).ids_by_uid@.len(),
            r < old(self).ids_by_uid@[i as int].ids@.len(),
        ensures
            final(self).index_ok(),
            final(self).ids_by_uid@.len() == old(self).ids_by_uid@.len(),
            final(self).ids_by_uid@[i as int].uid == old(self).ids_by_uid@[i as int].uid,
            final(self).ids_by_uid@[i as int].ids@ == old(self).ids_by_uid@[i as int].ids@.remove(r as int),
            final(self)@ == (StoreView {
                ids_by_uid: old(self)@.ids_by_uid.insert(
                    old(self).ids_by_uid@[i as int].uid@,
                    old(self).ids_by_uid@[i as int].ids@.remove(r as int),
                ),
                ..old(self)@
            }),
    {
        self.ids_by_uid[i].ids.remove(r);
        proof {
            let p = index_pairs(old(self).ids_by_uid@);
            let v = old(self).ids_by_uid@[i as int].ids@.remove(r as int);
            assert(index_pairs(self.ids_by_uid@) =~= p.update(i as int, (p[i as int].0, v)));
            lemma_pairs_map_update(p, i as int, v);
        }
        assert(self@ =~= StoreView {
            ids_by_uid: old(self)@.ids_by_uid.insert(
                old(self).ids_by_uid@[i as int].uid@,
                old(self).ids_by_uid@[i as int].ids@.remove(r as int),
            ),
            ..old(self)@
        });
    }

    fn remove_message_from_user_index(&mut self, message: &DanmuMessage)
        requires
            old(self).index_ok(),
        ensures
            final(self).index_ok(),
            final(self)@ == old(self)@.remove_from_user_index(*message),
    {
        let is_selected_uid = match &self.selected_uid {
            Some(u) => str_eq(u.as_str(), message.uid.as_str()),
            None => false,
        };
        let i = match self.find_user(message.uid.as_str()) {
            Some(i) => i,
            None => {
                return;
            },
        };
        let ids = deque_to_vec(&self.ids_by_uid[i].ids);
        let remove_index = match position_of(&ids, message.message_id) {
            Some(r) => r,
            None => {
                return;
            },
        };
        proof {
            lemma_find_index(ids@, message.message_id);
        }
        self.remove_user_id_at(i, remove_index);
        if is_selected_uid && remove_index < self.person_start_index {
            self.person_start_index = self.person_start_index - 1;
        }
        if is_selected_uid {
            self.person_start_index = clamp_viewport_start(
                self.person_start_index,
                self.ids_by_uid[i].ids.len(),
                self.person_viewport_size,
            );
        }
        assert(self@ =~= old(self)@.remove_from_user_index(*message));
    }

    fn trim_main_capacity(&mut self)
        requires
            old(self).index_ok(),
        ensures
            final(self).index_ok(),
            final(self)@ == old(self)@.trim_main(),
    {
        while self.messages.len() > self.main_capacity
            invariant
                self.index_ok(),
                self@.trim_main() == old(self)@.trim_main(),
            decreases self.messages@.len(),
        {
            let ghost before = self@;
            let removed = self.messages.pop_front().unwrap();
            let is_anchor = match self.anchor_message_id {
                Some(a) => a == removed.message_id,
                None => false,
            };
            let ghost v = StoreView { messages: before.messages.drop_first(), ..before };
            assert(self@ =~= v);
            if !is_anchor {
                self.by_id.remove(&removed.message_id);
                assert(self@ =~= StoreView { by_id: v.by_id.remove(removed.message_id), ..v });
                self.remove_message_from_user_index(&removed);
            }
            self.main_start_index = if self.main_start_index > 0 {
                self.main_start_index - 1
            } else {
                0
            };
            proof {
                let v2 = if Some(removed.message_id) != before.anchor_message_id {
                    StoreView { by_id: v.by_id.remove(removed.message_id), ..v }.remove_from_user_index(
                        removed,
                    )
                } else {
                    v
                };
                assert(self@ =~= StoreView {
                    main_start_index: saturating_sub(v2.main_start_index as int, 1) as usize,
                    ..v2
                });
            }
        }
    }

    fn trim_user_capacity(&mut self, uid: &str)
        requires
            old(self).index_ok(),
        ensures
            final(self).index_ok(),
            final(self)@ == old(self)@.trim_user(uid@),
    {
        let is_selected = match &self.selected_uid {
            Some(u) => str_eq(u.as_str(), uid),
            None => false,
        };
        let preserved_anchor_id = if is_selected {
            self.anchor_message_id
        } else {
            None
        };
        let i = match self.find_user(uid) {
            Some(i) => i,
            None => {
                return;
            },
        };
        while self.ids_by_uid[i].ids.len() > self.per_user_capacity
            invariant
                self.index_ok(),
                i < self.ids_by_uid@.len(),
                self.ids_by_uid@[i as int].uid@ == uid@,
                self@.ids_by_uid.contains_key(uid@),
                self@.ids_by_uid[uid@] == self.ids_by_uid@[i as int].ids@,
                self@.trim_user_list(uid@, preserved_anchor_id) == old(self)@.trim_user(uid@),
                is_selected == (self@.selected_uid == Some(uid@)),
            decreases self.ids_by_uid@[i as int].ids@.len(),
        {
            let ghost before = self@;
            let ids = deque_to_vec(&self.ids_by_uid[i].ids);
            let remove_index = match preserved_anchor_id {
                Some(anchor_id) => match position_of(&ids, anchor_id) {
                    Some(_) => match position_of_other(&ids, anchor_id) {
                        Some(j) => j,
                        None => 0,
                    },
                    None => 0,
                },
                None => 0,
            };
            proof {
                if let Some(a) = preserved_anchor_id {
                    lemma_find_index(ids@, a);
                    lemma_find_other(ids@, a);
                }
            }
            self.remove_user_id_at(i, remove_index);
            if is_selected {
                if remove_index < self.person_start_index {
                    self.person_start_index = self.person_start_index - 1;
                }
                self.person_start_index = clamp_viewport_start(
                    self.person_start_index,
                    self.ids_by_uid[i].ids.len(),
                    self.person_viewport_size,
                );
            }
            proof {
                lemma_pairs_map_value(index_pairs(self.ids_by_uid@), i as int);
                let ids2 = before.ids_by_uid[uid@].remove(remove_index as int);
                assert(self@ =~= StoreView {
                    ids_by_uid: before.ids_by_uid.insert(uid@, ids2),
                    person_start_index: before.start_after_user_removal(
                        uid@,
                        remove_index as int,
                        ids2.len() as int,
                    ) as usize,
                    ..before
                });
            }
        }
    }

    fn refresh_person_start_after_data_change(&mut self, uid: &str)
        requires
            old(self).index_ok(),
        ensures
            final(self).index_ok(),
            final(self)@ == old(self)@.refresh_person_start(uid@),
    {
        let selected = match &self.selected_uid {
            Some(u) => str_eq(u.as_str(), uid),
            None => false,
        };
        if !selected || self.anchor_message_id.is_none() {
            return;
        }
        if !self.hover_frozen && !self.person_manual_viewport {
            self.person_start_index = self.compute_anchored_person_start();
        }
        assert(self@ =~= old(self)@.refresh_person_start(uid@));
    }

    /// Validates `raw`, stores it as the next message and trims the caches.
    pub fn ingest(&mut self, raw: IncomingDanmuRaw) -> (r: Result<DanmuMessage, String>)
        requires
            old(self).wf(),
            old(self)@.next_message_id < usize::MAX,
            normalize_error(raw) is None ==> timestamp_in_range(raw),
        ensures
            final(self).wf(),
            r is Err <==> normalize_error(raw) is Some,
            r matches Err(e) ==> normalize_error(raw) == Some(e@) && final(self)@ == old(self)@,
            r matches Ok(m) ==> final(self)@ == old(self)@.ingest_message(m),
            r matches Ok(m) ==> exists|now: int|
                normalized_as(raw, old(self)@.next_message_id, message_time(raw, now), m),
            r matches Ok(m) ==> (raw.timestamp_ms is Some || raw.timestamp is Some) ==> normalized_as(
                raw,
                old(self)@.next_message_id,
                message_time(raw, 0),
                m,
            ),
            r matches Ok(m) ==> m.message_id == old(self)@.next_message_id && !m.read
                && final(self)@.next_message_id == old(self)@.next_message_id + 1,
            r matches Ok(m) ==> (old(self)@.selected_uid != Some(m.uid@) && old(self)@.messages.len()
                < old(self)@.main_capacity ==> same_person_panel(final(self)@, old(self)@)),
            r is Ok && old(self)@.per_user_capacity >= 1 && !old(self)@.hover_frozen
                && !old(self)@.person_manual_viewport && anchor_visible(old(self)@) ==> anchor_visible(
                final(self)@,
            ),
    {
        let keep_main_pinned_to_bottom = self.is_main_viewport_at_bottom();
        let message = match normalize_incoming(raw, self.next_message_id) {
            Ok(m) => m,
            Err(e) => {
                return Err(e);
            },
        };
        let ghost start = self@;
        self.next_message_id = self.next_message_id + 1;
        self.messages.push_back(message.duplicate());
        self.by_id.insert(message.message_id, message.duplicate());
        self.push_user_id(&message.uid, message.message_id);
        proof {
            let uid = message.uid@;
            let ids = if start.ids_by_uid.contains_key(uid) {
                start.ids_by_uid[uid]
            } else {
                Seq::empty()
            };
            assert(self@ =~= StoreView {
                next_message_id: (start.next_message_id + 1) as u64,
                messages: start.messages.push(message),
                by_id: start.by_id.insert(message.message_id, message),
                ids_by_uid: start.ids_by_uid.insert(uid, ids.push(message.message_id)),
                ..start
            });
        }
        self.trim_main_capacity();
        self.trim_user_capacity(message.uid.as_str());
        if keep_main_pinned_to_bottom {
            self.pin_main_viewport_to_bottom();
        } else {
            self.clamp_main_viewport_start();
        }
        self.refresh_person_start_after_data_change(message.uid.as_str());
        proof {
            let now = choose|now: int| normalized_as(raw, start.next_message_id, message_time(raw, now), message);
            assert(message.message_id == start.next_message_id && !message.read);
            law_ingest_advances_next_id(start, message);
            law_ingest_keeps_invariant(start, message);
            law_ingest_keeps_bounds(start, message);
            if start.selected_uid != Some(message.uid@) && start.messages.len() < start.main_capacity {
                law_other_sender_leaves_person_panel(start, message);
            }
            if start.per_user_capacity >= 1 && !start.hover_frozen && !start.person_manual_viewport
                && anchor_visible(start) {
                law_ingest_keeps_anchor_visible(start, message);
            }
        }
        Ok(message)
    }

    /// The sender index holds each sender once.
    closed spec fn index_ok(&self) -> bool {
        keys_unique(index_pairs(self.ids_by_uid@))
    }

    /// The store is in a state that its operations can reach: its sender index
    /// holds each sender once, its view keeps the invariant and it keeps to
    /// its limits.
    pub closed spec fn wf(&self) -> bool {
        self.index_ok() && self@.inv() && self@.bounded()
    }

    /// The id that the next accepted message will get.
    pub fn next_message_id(&self) -> (r: u64)
        ensures
            r == self@.next_message_id,
    {
        self.next_message_id
    }

    /// A well-formed store's view keeps the invariant.
    pub proof fn lemma_wf_invariant(&self)
        requires
            self.wf(),
        ensures
            self@.inv(),
            self@.bounded(),
    {
    }

    pub fn new(main_capacity: usize, per_user_capacity: usize) -> (r: Self)
        ensures
            r.wf(),
            r@ == fresh_store(main_capacity, per_user_capacity),
    {
        let r = MessageStore {
            next_message_id: 1,
            main_capacity,
            per_user_capacity,
            main_viewport_size: 22,
            person_viewport_size: 14,
            main_start_index: 0,
            selected_uid: None,
            anchor_message_id: None,
            person_start_index: 0,
            person_manual_viewport: false,
            hover_frozen: false,
            connected: false,
            connection_status: String::from_str("未连接"),
            messages: VecDeque::new(),
            by_id: HashMap::new(),
            ids_by_uid: Vec::new(),
        };
        assert(index_pairs(r.ids_by_uid@) =~= Seq::empty());
        assert(r@ =~= fresh_store(main_capacity, per_user_capacity));
        r
    }

    pub fn set_connection(&mut self, status: String, connected: bool)
        requires
            old(self).wf(),
        ensures
            final(self).wf(),
            final(self)@ == (StoreView { connection_status: status@, connected, ..old(self)@ }),
    {
        self.connection_status = status;
        self.connected = connected;
        assert(self@ =~= StoreView { connection_status: status@, connected, ..old(self)@ });
    }

    pub fn scroll_main_viewport(&mut self, delta: isize)
        requires
            old(self).wf(),
        ensures
            final(self).wf(),
            final(self)@ == old(self)@.scroll_main_viewport(delta as int),
    {
        self.main_start_index = scroll_viewport_start(
            self.main_start_index,
            delta,
            self.messages.len(),
            self.main_viewport_size,
        );
        assert(self@ =~= old(self)@.scroll_main_viewport(delta as int));
    }
}

} // verus!
