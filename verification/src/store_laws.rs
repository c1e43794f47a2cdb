//! Properties of the message store that span its operations: the invariant
//! that every operation keeps, and the overlay's promises about its viewports,
//! read marks and anchor.

use vstd::prelude::*;
use crate::models::DanmuMessage;
use crate::store_model::{
    insert_sorted, lemma_insert_sorted, last_present, present_messages, find_message, advance_past_read, anchored_start, find_index, find_other, lemma_find_index, lemma_find_other,
    mark_if_from, mark_if_listed, mark_read, saturating_sub, strictly_increasing, StoreView,
};
use crate::viewport::{spec_clamp_viewport_start, spec_max_viewport_start};

verus! {

/// The rows skipped by `advance_past_read` are the read rows from `start` on.
pub proof fn lemma_advance_past_read(messages: Seq<DanmuMessage>, start: int)
    requires
        0 <= start,
    ensures
        start <= advance_past_read(messages, start),
        start <= messages.len() ==> advance_past_read(messages, start) <= messages.len(),
        forall|k: int|
            start <= k < advance_past_read(messages, start) ==> #[trigger] messages[k].read,
        advance_past_read(messages, start) < messages.len() ==> !messages[advance_past_read(
            messages,
            start,
        )].read,
    decreases messages.len() - start,
{
    if 0 <= start < messages.len() && messages[start].read {
        lemma_advance_past_read(messages, start + 1);
    }
}

/// Under the invariant, the main list and each sender's list are no longer
/// than the next id, and so fit in `usize`.
pub proof fn lemma_inv_lengths(v: StoreView)
    requires
        v.next_message_id <= usize::MAX,
        v.inv_messages(),
        v.inv_index(),
        v.inv_by_id(),
    ensures
        v.messages.len() <= v.next_message_id,
        forall|u: Seq<char>| #[trigger] v.ids_by_uid.contains_key(u) ==> v.ids_by_uid[u].len()
            <= v.next_message_id,
        v.selected_user_ids().len() <= v.next_message_id,
{
    let ids = Seq::new(v.messages.len(), |i: int| v.messages[i].message_id);
    assert forall|i: int, j: int| 0 <= i < j < ids.len() implies ids[i] < ids[j] by {
        assert(v.messages[i].message_id < v.messages[j].message_id);
    }
    assert forall|i: int| 0 <= i < ids.len() implies ids[i] < v.next_message_id by {
        assert(v.messages[i].message_id < v.next_message_id);
    }
    crate::store_model::lemma_increasing_len(ids, v.next_message_id as int);
    assert forall|u: Seq<char>| #[trigger] v.ids_by_uid.contains_key(u) implies v.ids_by_uid[u].len()
        <= v.next_message_id by {
        let l = v.ids_by_uid[u];
        assert forall|i: int| 0 <= i < l.len() implies l[i] < v.next_message_id by {
            assert(v.by_id.contains_key(l[i]));
        }
        crate::store_model::lemma_increasing_len(l, v.next_message_id as int);
    }
}

proof fn lemma_settle_keeps_invariant(v: StoreView)
    requires
        v.inv_sizes(),
        v.inv_messages(),
        v.inv_by_id(),
        v.inv_index(),
        v.inv_anchor(),
        v.next_message_id <= usize::MAX,
    ensures
        v.settle_main_after_reading().inv(),
{
    lemma_advance_past_read(v.messages, v.main_start_index as int);
    lemma_inv_lengths(v);
}

/// Acknowledging a message keeps the store's invariant.
pub proof fn law_ack_message_keeps_invariant(v: StoreView, id: u64)
    requires
        v.inv(),
    ensures
        v.ack_message(id).inv(),
{
    let by_id = if v.by_id.contains_key(id) {
        v.by_id.insert(id, mark_read(v.by_id[id]))
    } else {
        v.by_id
    };
    let k = find_message(v.messages, id);
    crate::store_model::lemma_find_message(v.messages, id);
    let messages = if k < 0 {
        v.messages
    } else {
        v.messages.update(k, mark_read(v.messages[k]))
    };
    let w = StoreView { by_id, messages, ..v };
    assert(w.inv_messages()) by {
        assert forall|i: int| 0 <= i < w.messages.len() implies {
            let m = #[trigger] w.messages[i];
            &&& m.message_id < w.next_message_id
            &&& w.by_id.contains_key(m.message_id)
            &&& w.by_id[m.message_id].uid == m.uid
        } by {
            assert(w.messages[i].message_id == v.messages[i].message_id);
            assert(v.by_id.contains_key(v.messages[i].message_id));
        }
    }
    assert(w.inv_index()) by {
        assert forall|u: Seq<char>| #[trigger] w.ids_by_uid.contains_key(u) implies {
            let ids = w.ids_by_uid[u];
            &&& strictly_increasing(ids)
            &&& forall|i: int|
                0 <= i < ids.len() ==> w.by_id.contains_key(#[trigger] ids[i]) && w.by_id[ids[i]].uid@
                    == u
        } by {
            let ids = w.ids_by_uid[u];
            assert forall|i: int| 0 <= i < ids.len() implies w.by_id.contains_key(#[trigger] ids[i])
                && w.by_id[ids[i]].uid@ == u by {
                assert(v.by_id.contains_key(ids[i]));
            }
        }
    }
    lemma_settle_keeps_invariant(w);
}


/// Acknowledging all messages of a sender keeps the store's invariant.
pub proof fn law_ack_user_messages_keeps_invariant(v: StoreView, uid: Seq<char>)
    requires
        v.inv(),
    ensures
        v.ack_user_messages(uid).inv(),
{
    let ids = if v.ids_by_uid.contains_key(uid) {
        v.ids_by_uid[uid]
    } else {
        Seq::empty()
    };
    let by_id = v.by_id.map_entries(|k: u64, m: DanmuMessage| mark_if_listed(ids, k, m));
    let messages = v.messages.map_values(|m: DanmuMessage| mark_if_from(uid, m));
    let w = StoreView { by_id, messages, ..v };
    assert(forall|k: u64| #[trigger] w.by_id.contains_key(k) <==> v.by_id.contains_key(k));
    assert forall|k: u64| #[trigger] w.by_id.contains_key(k) implies w.by_id[k].message_id
        == v.by_id[k].message_id && w.by_id[k].uid == v.by_id[k].uid by {
        assert(w.by_id[k] == mark_if_listed(ids, k, v.by_id[k]));
    }
    assert(w.inv_messages()) by {
        assert forall|i: int| 0 <= i < w.messages.len() implies {
            let m = #[trigger] w.messages[i];
            &&& m.message_id < w.next_message_id
            &&& w.by_id.contains_key(m.message_id)
            &&& w.by_id[m.message_id].uid == m.uid
        } by {
            assert(w.messages[i] == mark_if_from(uid, v.messages[i]));
            assert(v.by_id.contains_key(v.messages[i].message_id));
        }
        assert forall|i: int, j: int|
            0 <= i < j < w.messages.len() implies #[trigger] w.messages[i].message_id
            < #[trigger] w.messages[j].message_id by {
            assert(w.messages[i] == mark_if_from(uid, v.messages[i]));
            assert(w.messages[j] == mark_if_from(uid, v.messages[j]));
        }
    }
    assert(w.inv_index()) by {
        assert forall|u: Seq<char>| #[trigger] w.ids_by_uid.contains_key(u) implies {
            let l = w.ids_by_uid[u];
            &&& strictly_increasing(l)
            &&& forall|i: int|
                0 <= i < l.len() ==> w.by_id.contains_key(#[trigger] l[i]) && w.by_id[l[i]].uid@
                    == u
        } by {
            let l = w.ids_by_uid[u];
            assert forall|i: int| 0 <= i < l.len() implies w.by_id.contains_key(#[trigger] l[i])
                && w.by_id[l[i]].uid@ == u by {
                assert(v.by_id.contains_key(l[i]));
            }
        }
    }
    assert(w.inv_by_id());
    assert(w.inv_anchor());
    lemma_settle_keeps_invariant(w);
}

/// Selecting an anchor keeps the store's invariant.
pub proof fn law_select_user_anchor_keeps_invariant(v: StoreView, id: u64)
    requires
        v.inv(),
    ensures
        v.select_user_anchor(id).inv(),
{
    if v.by_id.contains_key(id) {
        let u = v.by_id[id].uid@;
        let v0 = StoreView {
            selected_uid: Some(u),
            anchor_message_id: Some(id),
            hover_frozen: false,
            person_manual_viewport: false,
            ..v
        };
        let ids = v0.selected_user_ids();
        if !ids.contains(id) {
            lemma_select_reinsert_keeps_invariant(v0, id);
            let w = StoreView { ids_by_uid: v0.ids_by_uid.insert(u, insert_sorted(ids, id)), ..v0 };
            lemma_trim_user_keeps_invariant(w, u, Some(id));
        }
    }
}

/// Putting the anchor back into its sender's list keeps the invariant.
proof fn lemma_select_reinsert_keeps_invariant(v: StoreView, id: u64)
    requires
        v.inv(),
        v.anchor_message_id == Some(id),
        !v.selected_user_ids().contains(id),
    ensures
        (StoreView {
            ids_by_uid: v.ids_by_uid.insert(
                v.selected_uid->0,
                insert_sorted(v.selected_user_ids(), id),
            ),
            ..v
        }).inv(),
{
    let u = v.selected_uid->0;
    let ids = v.selected_user_ids();
    assert(strictly_increasing(ids));
    lemma_insert_sorted(ids, id);
    let w = StoreView { ids_by_uid: v.ids_by_uid.insert(u, insert_sorted(ids, id)), ..v };
    assert(w.inv_index()) by {
        assert forall|k: Seq<char>| #[trigger] w.ids_by_uid.contains_key(k) implies {
            let l = w.ids_by_uid[k];
            &&& strictly_increasing(l)
            &&& forall|i: int|
                0 <= i < l.len() ==> w.by_id.contains_key(#[trigger] l[i]) && w.by_id[l[i]].uid@ == k
        } by {
            let l = w.ids_by_uid[k];
            if k == u {
                assert forall|i: int| 0 <= i < l.len() implies w.by_id.contains_key(#[trigger] l[i])
                    && w.by_id[l[i]].uid@ == k by {
                    assert(l.contains(l[i]));
                    if l[i] != id {
                        assert(ids.contains(l[i]));
                        let j = choose|j: int| 0 <= j < ids.len() && ids[j] == l[i];
                        assert(v.ids_by_uid.contains_key(u));
                        assert(v.by_id.contains_key(ids[j]));
                    }
                }
            } else {
                assert forall|i: int| 0 <= i < l.len() implies w.by_id.contains_key(#[trigger] l[i])
                    && w.by_id[l[i]].uid@ == k by {
                    assert(v.by_id.contains_key(v.ids_by_uid[k][i]));
                }
            }
        }
    }
}

/// Hovering over or leaving the person panel keeps the store's invariant.
pub proof fn law_set_person_panel_hover_keeps_invariant(v: StoreView, value: bool)
    requires
        v.inv(),
    ensures
        v.set_person_panel_hover(value).inv(),
{
}

/// Scrolling either viewport keeps the store's invariant.
pub proof fn law_scrolling_keeps_invariant(v: StoreView, delta: int)
    requires
        v.inv(),
    ensures
        v.scroll_main_viewport(delta).inv(),
        v.scroll_person_viewport(delta).inv(),
{
}

/// Resizing the viewports keeps the store's invariant.
pub proof fn law_set_viewport_sizes_keeps_invariant(
    v: StoreView,
    main: Option<usize>,
    person: Option<usize>,
)
    requires
        v.inv(),
    ensures
        v.set_viewport_sizes(main, person).inv(),
{
}

proof fn lemma_remove_keeps_increasing(ids: Seq<u64>, r: int)
    requires
        strictly_increasing(ids),
        0 <= r < ids.len(),
    ensures
        strictly_increasing(ids.remove(r)),
        !ids.remove(r).contains(ids[r]),
        forall|x: u64| ids.remove(r).contains(x) ==> ids.contains(x),
{
    let s = ids.remove(r);
    assert forall|i: int, j: int| 0 <= i < j < s.len() implies s[i] < s[j] by {
        let a = if i < r { i } else { i + 1 };
        let b = if j < r { j } else { j + 1 };
        assert(s[i] == ids[a] && s[j] == ids[b]);
    }
    if s.contains(ids[r]) {
        let i = choose|i: int| 0 <= i < s.len() && s[i] == ids[r];
        let a = if i < r { i } else { i + 1 };
        assert(s[i] == ids[a]);
    }
    assert forall|x: u64| s.contains(x) implies ids.contains(x) by {
        let i = choose|i: int| 0 <= i < s.len() && s[i] == x;
        let a = if i < r { i } else { i + 1 };
        assert(s[i] == ids[a]);
    }
}

/// The store just after message `m` was appended, before any trimming.
pub open spec fn appended(v: StoreView, m: DanmuMessage) -> StoreView {
    let uid = m.uid@;
    let ids = if v.ids_by_uid.contains_key(uid) {
        v.ids_by_uid[uid]
    } else {
        Seq::empty()
    };
    StoreView {
        next_message_id: (v.next_message_id + 1) as u64,
        messages: v.messages.push(m),
        by_id: v.by_id.insert(m.message_id, m),
        ids_by_uid: v.ids_by_uid.insert(uid, ids.push(m.message_id)),
        ..v
    }
}

proof fn lemma_appended_keeps_invariant(v: StoreView, m: DanmuMessage)
    requires
        v.inv(),
        m.message_id == v.next_message_id,
        v.next_message_id < usize::MAX,
    ensures
        appended(v, m).inv(),
{
    let w = appended(v, m);
    let uid = m.uid@;
    assert(!v.by_id.contains_key(m.message_id));
    assert(w.inv_messages()) by {
        assert forall|i: int, j: int|
            0 <= i < j < w.messages.len() implies #[trigger] w.messages[i].message_id
            < #[trigger] w.messages[j].message_id by {
            if j == v.messages.len() {
                assert(w.messages[i] == v.messages[i]);
            }
        }
        assert forall|i: int| 0 <= i < w.messages.len() implies {
            let x = #[trigger] w.messages[i];
            &&& x.message_id < w.next_message_id
            &&& w.by_id.contains_key(x.message_id)
            &&& w.by_id[x.message_id].uid == x.uid
        } by {
            if i < v.messages.len() {
                assert(w.messages[i] == v.messages[i]);
                assert(v.by_id.contains_key(v.messages[i].message_id));
            }
        }
    }
    assert(w.main_start_index <= w.main_max_start());
    assert(w.inv_index()) by {
        assert forall|u: Seq<char>| #[trigger] w.ids_by_uid.contains_key(u) implies {
            let l = w.ids_by_uid[u];
            &&& strictly_increasing(l)
            &&& forall|i: int|
                0 <= i < l.len() ==> w.by_id.contains_key(#[trigger] l[i]) && w.by_id[l[i]].uid@
                    == u
        } by {
            let l = w.ids_by_uid[u];
            if u == uid {
                let old_ids = if v.ids_by_uid.contains_key(uid) {
                    v.ids_by_uid[uid]
                } else {
                    Seq::empty()
                };
                assert(l == old_ids.push(m.message_id));
                assert forall|i: int| 0 <= i < old_ids.len() implies #[trigger] old_ids[i]
                    < m.message_id by {
                    assert(v.by_id.contains_key(old_ids[i]));
                }
                assert forall|i: int, j: int| 0 <= i < j < l.len() implies l[i] < l[j] by {
                    if j == old_ids.len() {
                        assert(l[i] == old_ids[i]);
                    } else {
                        assert(l[i] == old_ids[i] && l[j] == old_ids[j]);
                    }
                }
                assert forall|i: int| 0 <= i < l.len() implies w.by_id.contains_key(#[trigger] l[i])
                    && w.by_id[l[i]].uid@ == u by {
                    if i < old_ids.len() {
                        assert(l[i] == old_ids[i]);
                        assert(v.by_id.contains_key(old_ids[i]));
                    }
                }
            } else {
                assert(l == v.ids_by_uid[u]);
                assert forall|i: int| 0 <= i < l.len() implies w.by_id.contains_key(#[trigger] l[i])
                    && w.by_id[l[i]].uid@ == u by {
                    assert(v.by_id.contains_key(l[i]));
                }
            }
        }
    }
}

/// One step of `trim_main`: drop the oldest main message.
pub open spec fn trim_main_step(v: StoreView) -> StoreView {
    let removed = v.messages[0];
    let w = StoreView { messages: v.messages.drop_first(), ..v };
    let w2 = if Some(removed.message_id) != v.anchor_message_id {
        StoreView { by_id: w.by_id.remove(removed.message_id), ..w }.remove_from_user_index(removed)
    } else {
        w
    };
    StoreView { main_start_index: saturating_sub(w2.main_start_index as int, 1) as usize, ..w2 }
}

proof fn lemma_trim_main_step_keeps_invariant(v: StoreView)
    requires
        v.inv(),
        v.messages.len() > 0,
    ensures
        trim_main_step(v).inv(),
        trim_main_step(v).messages == v.messages.drop_first(),
        trim_main_step(v).anchor_message_id == v.anchor_message_id,
        trim_main_step(v).selected_uid == v.selected_uid,
{
    let removed = v.messages[0];
    let id0 = removed.message_id;
    let uid0 = removed.uid@;
    let w = StoreView { messages: v.messages.drop_first(), ..v };
    let r = trim_main_step(v);
    assert(v.by_id.contains_key(id0));
    assert(v.by_id[id0].uid == removed.uid);
    assert(r.inv_messages()) by {
        assert forall|i: int| 0 <= i < r.messages.len() implies {
            let x = #[trigger] r.messages[i];
            &&& x.message_id < r.next_message_id
            &&& r.by_id.contains_key(x.message_id)
            &&& r.by_id[x.message_id].uid == x.uid
        } by {
            assert(r.messages[i] == v.messages[i + 1]);
            assert(v.messages[0].message_id < v.messages[i + 1].message_id);
            assert(v.by_id.contains_key(v.messages[i + 1].message_id));
        }
        assert forall|i: int, j: int|
            0 <= i < j < r.messages.len() implies #[trigger] r.messages[i].message_id
            < #[trigger] r.messages[j].message_id by {
            assert(r.messages[i] == v.messages[i + 1] && r.messages[j] == v.messages[j + 1]);
        }
    }
    if Some(id0) != v.anchor_message_id {
        let u = StoreView { by_id: w.by_id.remove(id0), ..w };
        assert(r.inv_index()) by {
            assert forall|k: Seq<char>| #[trigger] r.ids_by_uid.contains_key(k) implies {
                let l = r.ids_by_uid[k];
                &&& strictly_increasing(l)
                &&& forall|i: int|
                    0 <= i < l.len() ==> r.by_id.contains_key(#[trigger] l[i]) && r.by_id[l[i]].uid@
                        == k
            } by {
                let l = r.ids_by_uid[k];
                let ol = v.ids_by_uid[k];
                if k == uid0 {
                    let fi = find_index(ol, id0);
                    lemma_find_index(ol, id0);
                    if fi >= 0 {
                        assert(l == ol.remove(fi));
                        lemma_remove_keeps_increasing(ol, fi);
                        assert forall|i: int| 0 <= i < l.len() implies r.by_id.contains_key(
                            #[trigger] l[i],
                        ) && r.by_id[l[i]].uid@ == k by {
                            assert(l.contains(l[i]));
                            assert(ol.contains(l[i]));
                            let j = choose|j: int| 0 <= j < ol.len() && ol[j] == l[i];
                            assert(v.by_id.contains_key(ol[j]));
                        }
                    } else {
                        assert(l == ol);
                        assert forall|i: int| 0 <= i < l.len() implies r.by_id.contains_key(
                            #[trigger] l[i],
                        ) && r.by_id[l[i]].uid@ == k by {
                            assert(v.by_id.contains_key(ol[i]));
                        }
                    }
                } else {
                    assert(l == ol);
                    assert forall|i: int| 0 <= i < l.len() implies r.by_id.contains_key(
                        #[trigger] l[i],
                    ) && r.by_id[l[i]].uid@ == k by {
                        assert(v.by_id.contains_key(ol[i]));
                        assert(v.by_id[ol[i]].uid@ == k);
                    }
                }
            }
        }
        assert(r.inv_anchor());
        assert(r.inv_by_id());
    }
}

/// `trim_main` changes only the lists, the cache and the two first rows.
proof fn lemma_trim_main_frame(v: StoreView)
    ensures
        v.trim_main() == (StoreView {
            messages: v.trim_main().messages,
            by_id: v.trim_main().by_id,
            ids_by_uid: v.trim_main().ids_by_uid,
            person_start_index: v.trim_main().person_start_index,
            main_start_index: v.trim_main().main_start_index,
            ..v
        }),
    decreases v.messages.len(),
{
    if v.messages.len() > v.main_capacity {
        let w = trim_main_step(v);
        assert(v.trim_main() == w.trim_main());
        lemma_trim_main_frame(w);
    }
}

proof fn lemma_trim_main_keeps_invariant(v: StoreView)
    requires
        v.inv(),
    ensures
        v.trim_main().inv(),
        v.trim_main().anchor_message_id == v.anchor_message_id,
        v.trim_main().selected_uid == v.selected_uid,
    decreases v.messages.len(),
{
    if v.messages.len() > v.main_capacity {
        lemma_trim_main_step_keeps_invariant(v);
        assert(v.trim_main() == trim_main_step(v).trim_main());
        lemma_trim_main_keeps_invariant(trim_main_step(v));
    }
}

proof fn lemma_trim_user_keeps_invariant(v: StoreView, uid: Seq<char>, preserved: Option<u64>)
    requires
        v.inv(),
    ensures
        v.trim_user_list(uid, preserved).inv(),
        v.trim_user_list(uid, preserved).messages == v.messages,
        v.trim_user_list(uid, preserved).by_id == v.by_id,
        v.trim_user_list(uid, preserved).anchor_message_id == v.anchor_message_id,
        v.trim_user_list(uid, preserved).selected_uid == v.selected_uid,
    decreases v.ids_by_uid[uid].len(),
{
    let ids = v.ids_by_uid[uid];
    if v.ids_by_uid.contains_key(uid) && ids.len() > v.per_user_capacity {
        let idx = match preserved {
            Some(a) => if ids.contains(a) {
                let j = find_other(ids, a);
                if j < 0 {
                    0
                } else {
                    j
                }
            } else {
                0
            },
            None => 0,
        };
        if let Some(a) = preserved {
            lemma_find_other(ids, a);
        }
        let ids2 = ids.remove(idx);
        lemma_remove_keeps_increasing(ids, idx);
        let next = StoreView {
            ids_by_uid: v.ids_by_uid.insert(uid, ids2),
            person_start_index: v.start_after_user_removal(uid, idx, ids2.len() as int) as usize,
            ..v
        };
        assert(next.inv_index()) by {
            assert forall|k: Seq<char>| #[trigger] next.ids_by_uid.contains_key(k) implies {
                let l = next.ids_by_uid[k];
                &&& strictly_increasing(l)
                &&& forall|i: int|
                    0 <= i < l.len() ==> next.by_id.contains_key(#[trigger] l[i])
                        && next.by_id[l[i]].uid@ == k
            } by {
                let l = next.ids_by_uid[k];
                if k == uid {
                    assert forall|i: int| 0 <= i < l.len() implies next.by_id.contains_key(
                        #[trigger] l[i],
                    ) && next.by_id[l[i]].uid@ == k by {
                        assert(l.contains(l[i]));
                        let j = choose|j: int| 0 <= j < ids.len() && ids[j] == l[i];
                        assert(v.by_id.contains_key(ids[j]));
                    }
                } else {
                    assert forall|i: int| 0 <= i < l.len() implies next.by_id.contains_key(
                        #[trigger] l[i],
                    ) && next.by_id[l[i]].uid@ == k by {
                        assert(v.by_id.contains_key(v.ids_by_uid[k][i]));
                    }
                }
            }
        }
        assert(v.trim_user_list(uid, preserved) == next.trim_user_list(uid, preserved));
        lemma_trim_user_keeps_invariant(next, uid, preserved);
    }
}

/// Taking in a message keeps the store's invariant.
pub proof fn law_ingest_keeps_invariant(v: StoreView, m: DanmuMessage)
    requires
        v.inv(),
        m.message_id == v.next_message_id,
        v.next_message_id < usize::MAX,
    ensures
        v.ingest_message(m).inv(),
{
    lemma_appended_keeps_invariant(v, m);
    let v1 = appended(v, m);
    lemma_trim_main_keeps_invariant(v1);
    let v2 = v1.trim_main();
    let uid = m.uid@;
    let preserved = if v2.selected_uid == Some(uid) {
        v2.anchor_message_id
    } else {
        None
    };
    lemma_trim_user_keeps_invariant(v2, uid, preserved);
}

/// `trim_user_list` changes nothing but sender `uid`'s list and the person
/// panel's first row.
proof fn lemma_trim_user_frame(v: StoreView, uid: Seq<char>, preserved: Option<u64>)
    ensures
        v.trim_user_list(uid, preserved) == (StoreView {
            ids_by_uid: v.trim_user_list(uid, preserved).ids_by_uid,
            person_start_index: v.trim_user_list(uid, preserved).person_start_index,
            ..v
        }),
        forall|k: Seq<char>|
            k != uid ==> (#[trigger] v.trim_user_list(uid, preserved).ids_by_uid.contains_key(k)
                == v.ids_by_uid.contains_key(k) && v.trim_user_list(uid, preserved).ids_by_uid[k]
                == v.ids_by_uid[k]),
        v.trim_user_list(uid, preserved).ids_by_uid.contains_key(uid) == v.ids_by_uid.contains_key(
            uid,
        ),
        v.selected_uid != Some(uid) ==> v.trim_user_list(uid, preserved).person_start_index
            == v.person_start_index,
    decreases v.ids_by_uid[uid].len(),
{
    let ids = v.ids_by_uid[uid];
    if v.ids_by_uid.contains_key(uid) && ids.len() > v.per_user_capacity {
        let idx = match preserved {
            Some(a) => if ids.contains(a) {
                let j = find_other(ids, a);
                if j < 0 {
                    0
                } else {
                    j
                }
            } else {
                0
            },
            None => 0,
        };
        if let Some(a) = preserved {
            lemma_find_other(ids, a);
        }
        let ids2 = ids.remove(idx);
        let next = StoreView {
            ids_by_uid: v.ids_by_uid.insert(uid, ids2),
            person_start_index: v.start_after_user_removal(uid, idx, ids2.len() as int) as usize,
            ..v
        };
        assert(v.trim_user_list(uid, preserved) == next.trim_user_list(uid, preserved));
        lemma_trim_user_frame(next, uid, preserved);
        assert forall|k: Seq<char>| k != uid implies (#[trigger] v.trim_user_list(
            uid,
            preserved,
        ).ids_by_uid.contains_key(k) == v.ids_by_uid.contains_key(k) && v.trim_user_list(
            uid,
            preserved,
        ).ids_by_uid[k] == v.ids_by_uid[k]) by {
            assert(next.ids_by_uid.contains_key(k) == v.ids_by_uid.contains_key(k));
            assert(next.ids_by_uid[k] == v.ids_by_uid[k]);
            assert(next.trim_user_list(uid, preserved).ids_by_uid.contains_key(k)
                == next.ids_by_uid.contains_key(k));
        }
    }
}

/// The main viewport never starts past the last position at which it is full,
/// so while the list fits, it shows the list from its first row; its rows,
/// the rows above it and the newer rows hidden below it account for the
/// whole list.
pub proof fn law_main_viewport_fills_from_the_top(v: StoreView)
    requires
        v.inv(),
    ensures
        v.main_start_index <= v.main_max_start(),
        v.messages.len() <= v.main_viewport_size ==> v.main_start_index == 0 && v.main_visible()
            == v.messages,
        v.main_visible().len() <= v.main_viewport_size,
        v.main_start_index + v.main_visible().len() + v.main_hidden_newer_count()
            == v.messages.len(),
{
    if v.messages.len() <= v.main_viewport_size {
        assert(v.main_visible() =~= v.messages);
    }
}

/// A new message is appended below the main viewport without scrolling it,
/// unless the viewport was showing the newest message or the list was full.
pub proof fn law_ingest_does_not_scroll_main_viewport(v: StoreView, m: DanmuMessage)
    requires
        v.inv(),
        m.message_id == v.next_message_id,
        v.next_message_id < usize::MAX,
        !v.main_at_bottom(),
        v.messages.len() < v.main_capacity,
    ensures
        v.ingest_message(m).main_start_index == v.main_start_index,
        v.ingest_message(m).messages == v.messages.push(m),
{
    let v1 = appended(v, m);
    assert(v1.trim_main() == v1);
    let uid = m.uid@;
    let preserved = if v1.selected_uid == Some(uid) {
        v1.anchor_message_id
    } else {
        None
    };
    lemma_trim_user_frame(v1, uid, preserved);
}

/// When the main viewport shows the newest message, it still shows the
/// newest message after a new one arrives.
pub proof fn law_ingest_keeps_bottom_pinned(v: StoreView, m: DanmuMessage)
    requires
        v.inv(),
        m.message_id == v.next_message_id,
        v.next_message_id < usize::MAX,
        v.main_at_bottom(),
    ensures
        v.ingest_message(m).main_start_index == v.ingest_message(m).main_max_start(),
        v.ingest_message(m).messages.len() > 0 ==> v.ingest_message(m).messages.last() == m
            || v.main_capacity == 0,
{
    let v1 = appended(v, m);
    lemma_trim_main_keeps_invariant(v1);
    lemma_trim_main_frame(v1);
    lemma_appended_keeps_invariant(v, m);
    law_ingest_keeps_invariant(v, m);
    lemma_inv_lengths(v.ingest_message(m));
    let v2 = v1.trim_main();
    let uid = m.uid@;
    let preserved = if v2.selected_uid == Some(uid) {
        v2.anchor_message_id
    } else {
        None
    };
    lemma_trim_user_frame(v2, uid, preserved);
    lemma_trim_main_keeps_last(v1);
}

proof fn lemma_trim_main_keeps_last(v: StoreView)
    requires
        v.messages.len() > 0,
    ensures
        v.trim_main().messages.len() > 0 ==> v.trim_main().messages.last() == v.messages.last(),
        v.trim_main().messages.len() == 0 ==> v.main_capacity == 0,
    decreases v.messages.len(),
{
    if v.messages.len() > v.main_capacity {
        let w = trim_main_step_for_last(v);
        assert(v.trim_main() == w.trim_main());
        if w.messages.len() > 0 {
            assert(w.messages.last() == v.messages.last());
            lemma_trim_main_keeps_last(w);
        } else {
            assert(w.trim_main() == w);
        }
    }
}

spec fn trim_main_step_for_last(v: StoreView) -> StoreView {
    trim_main_step(v)
}

/// Acknowledging a message marks it read, and the main viewport moves down
/// exactly over the read rows at its top, as far as it stays full.
pub proof fn law_ack_message_advances_over_read_rows(v: StoreView, id: u64)
    requires
        v.inv(),
    ensures
        ({
            let w = v.ack_message(id);
            let k = find_message(v.messages, id);
            &&& w.messages.len() == v.messages.len()
            &&& k >= 0 ==> w.messages[k].read
            &&& v.by_id.contains_key(id) ==> w.by_id[id].read
            &&& v.main_start_index <= w.main_start_index <= w.main_max_start()
            &&& forall|r: int| v.main_start_index <= r < w.main_start_index ==> #[trigger] w.messages[r].read
            &&& w.main_start_index < w.main_max_start() ==> !w.messages[w.main_start_index as int].read
        }),
{
    crate::store_model::lemma_find_message(v.messages, id);
    let k = find_message(v.messages, id);
    let messages = if k < 0 {
        v.messages
    } else {
        v.messages.update(k, mark_read(v.messages[k]))
    };
    lemma_advance_past_read(messages, v.main_start_index as int);
    lemma_inv_lengths(v);
}

/// Acknowledging a sender marks each of its main messages read, and the main
/// viewport moves down exactly over the read rows at its top, as far as it
/// stays full.
pub proof fn law_ack_user_messages_marks_sender(v: StoreView, uid: Seq<char>)
    requires
        v.inv(),
    ensures
        ({
            let w = v.ack_user_messages(uid);
            &&& w.messages.len() == v.messages.len()
            &&& forall|k: int|
                0 <= k < v.messages.len() ==> #[trigger] w.messages[k].read == (v.messages[k].read
                    || v.messages[k].uid@ == uid)
            &&& v.main_start_index <= w.main_start_index <= w.main_max_start()
            &&& forall|r: int| v.main_start_index <= r < w.main_start_index ==> #[trigger] w.messages[r].read
            &&& w.main_start_index < w.main_max_start() ==> !w.messages[w.main_start_index as int].read
        }),
{
    let messages = v.messages.map_values(|m: DanmuMessage| mark_if_from(uid, m));
    lemma_advance_past_read(messages, v.main_start_index as int);
    lemma_inv_lengths(v);
}

/// The anchored position shows the anchor in a full panel: on the second row
/// when a message above it fits, on the first row when it is the oldest (or
/// the panel has one row), lower only when the panel reaches the newest
/// message.
pub proof fn law_anchored_start_shows_anchor(ids: Seq<u64>, a: u64, size: int)
    requires
        size >= 1,
        ids.contains(a),
    ensures
        ({
            let s = anchored_start(ids, Some(a), size);
            let i = find_index(ids, a);
            &&& 0 <= s <= spec_max_viewport_start(ids.len() as int, size)
            &&& s <= i < s + size
            &&& size >= 2 && 1 <= i && i - 1 <= spec_max_viewport_start(ids.len() as int, size)
                ==> s == i - 1
            &&& i == 0 ==> s == 0
        }),
{
    lemma_find_index(ids, a);
}

/// The anchor message is visible in the person panel: its position in the
/// selected sender's list lies in the panel's window.
pub open spec fn anchor_visible(v: StoreView) -> bool {
    match v.anchor_message_id {
        Some(a) => {
            let i = find_index(v.selected_user_ids(), a);
            v.person_start_index <= i < v.person_start_index + v.person_viewport_size
        },
        None => false,
    }
}

/// Clicking any message that the store still holds selects its sender and
/// shows the message in the person panel (as long as a sender's list may
/// hold a message at all).
pub proof fn law_select_user_anchor_shows_anchor(v: StoreView, id: u64)
    requires
        v.inv(),
        v.by_id.contains_key(id),
        v.per_user_capacity >= 1,
    ensures
        anchor_visible(v.select_user_anchor(id)),
        v.select_user_anchor(id).anchor_message_id == Some(id),
        v.select_user_anchor(id).selected_uid == Some(v.by_id[id].uid@),
        !v.select_user_anchor(id).hover_frozen,
        !v.select_user_anchor(id).person_manual_viewport,
{
    let u = v.by_id[id].uid@;
    let v0 = StoreView {
        selected_uid: Some(u),
        anchor_message_id: Some(id),
        hover_frozen: false,
        person_manual_viewport: false,
        ..v
    };
    let ids = v0.selected_user_ids();
    let v1 = if ids.contains(id) {
        v0
    } else {
        StoreView { ids_by_uid: v0.ids_by_uid.insert(u, insert_sorted(ids, id)), ..v0 }.trim_user_list(
            u,
            Some(id),
        )
    };
    if !ids.contains(id) {
        lemma_select_reinsert_keeps_invariant(v0, id);
        let w = StoreView { ids_by_uid: v0.ids_by_uid.insert(u, insert_sorted(ids, id)), ..v0 };
        lemma_trim_user_keeps_invariant(w, u, Some(id));
        lemma_insert_sorted(ids, id);
        lemma_trim_user_list_keeps(w, u, id);
        lemma_trim_user_frame(w, u, Some(id));
    }
    assert(v1.inv());
    assert(v1.selected_user_ids().contains(id));
    lemma_inv_lengths(v1);
    law_anchored_start_shows_anchor(v1.selected_user_ids(), id, v1.person_viewport_size as int);
}

/// Leaving the person panel (unless it was scrolled by hand) brings the
/// anchor back into view.
pub proof fn law_leaving_hover_shows_anchor(v: StoreView)
    requires
        v.inv(),
        !v.person_manual_viewport,
        v.anchor_message_id is Some,
        v.selected_user_ids().contains(v.anchor_message_id->0),
    ensures
        anchor_visible(v.set_person_panel_hover(false)),
        !v.set_person_panel_hover(false).hover_frozen,
{
    lemma_inv_lengths(v);
    law_anchored_start_shows_anchor(
        v.selected_user_ids(),
        v.anchor_message_id->0,
        v.person_viewport_size as int,
    );
}

proof fn lemma_trim_main_keeps_anchor(v: StoreView)
    requires
        v.inv(),
        v.anchor_message_id is Some,
        v.selected_user_ids().contains(v.anchor_message_id->0),
    ensures
        v.trim_main().selected_user_ids().contains(v.anchor_message_id->0),
    decreases v.messages.len(),
{
    if v.messages.len() > v.main_capacity {
        let a = v.anchor_message_id->0;
        lemma_trim_main_step_keeps_invariant(v);
        let w = trim_main_step(v);
        let removed = v.messages[0];
        let u = v.selected_uid->0;
        let ids = v.ids_by_uid[u];
        assert(w.selected_user_ids().contains(a)) by {
            if removed.uid@ == u && removed.message_id != a {
                let r = find_index(ids, removed.message_id);
                lemma_find_index(ids, removed.message_id);
                if r >= 0 {
                    let j = choose|j: int| 0 <= j < ids.len() && ids[j] == a;
                    let l = ids.remove(r);
                    if j < r {
                        assert(l[j] == a);
                    } else {
                        assert(j != r);
                        assert(l[j - 1] == a);
                    }
                }
            }
        }
        assert(v.trim_main() == w.trim_main());
        lemma_trim_main_keeps_anchor(w);
    }
}

proof fn lemma_trim_user_keeps_anchor(v: StoreView, uid: Seq<char>)
    requires
        v.inv(),
        v.per_user_capacity >= 1,
        v.anchor_message_id is Some,
        v.selected_user_ids().contains(v.anchor_message_id->0),
    ensures
        v.trim_user(uid).selected_user_ids().contains(v.anchor_message_id->0),
{
    let preserved = if v.selected_uid == Some(uid) {
        v.anchor_message_id
    } else {
        None
    };
    lemma_trim_user_frame(v, uid, preserved);
    if v.selected_uid == Some(uid) {
        lemma_trim_user_list_keeps(v, uid, v.anchor_message_id->0);
    }
}

proof fn lemma_trim_user_list_keeps(v: StoreView, uid: Seq<char>, a: u64)
    requires
        v.inv(),
        v.per_user_capacity >= 1,
        v.ids_by_uid.contains_key(uid),
        v.ids_by_uid[uid].contains(a),
    ensures
        v.trim_user_list(uid, Some(a)).ids_by_uid.contains_key(uid),
        v.trim_user_list(uid, Some(a)).ids_by_uid[uid].contains(a),
    decreases v.ids_by_uid[uid].len(),
{
    let ids = v.ids_by_uid[uid];
    if ids.len() > v.per_user_capacity {
        lemma_find_other(ids, a);
        let j = find_other(ids, a);
        assert(j >= 0) by {
            if j < 0 {
                assert(ids[0] == a && ids[1] == a);
                assert(ids[0] < ids[1]);
            }
        }
        let ids2 = ids.remove(j);
        lemma_remove_keeps_increasing(ids, j);
        assert(ids2.contains(a)) by {
            let k = choose|k: int| 0 <= k < ids.len() && ids[k] == a;
            if k < j {
                assert(ids2[k] == a);
            } else {
                assert(k != j);
                assert(ids2[k - 1] == a);
            }
        }
        let next = StoreView {
            ids_by_uid: v.ids_by_uid.insert(uid, ids2),
            person_start_index: v.start_after_user_removal(uid, j, ids2.len() as int) as usize,
            ..v
        };
        lemma_trim_user_keeps_invariant(v, uid, Some(a));
        assert(v.trim_user_list(uid, Some(a)) == next.trim_user_list(uid, Some(a)));
        assert(next.inv()) by {
            assert forall|k: Seq<char>| #[trigger] next.ids_by_uid.contains_key(k) implies {
                let l = next.ids_by_uid[k];
                &&& strictly_increasing(l)
                &&& forall|i: int|
                    0 <= i < l.len() ==> next.by_id.contains_key(#[trigger] l[i])
                        && next.by_id[l[i]].uid@ == k
            } by {
                let l = next.ids_by_uid[k];
                if k == uid {
                    assert forall|i: int| 0 <= i < l.len() implies next.by_id.contains_key(
                        #[trigger] l[i],
                    ) && next.by_id[l[i]].uid@ == k by {
                        assert(l.contains(l[i]));
                        let q = choose|q: int| 0 <= q < ids.len() && ids[q] == l[i];
                        assert(v.by_id.contains_key(ids[q]));
                    }
                } else {
                    assert forall|i: int| 0 <= i < l.len() implies next.by_id.contains_key(
                        #[trigger] l[i],
                    ) && next.by_id[l[i]].uid@ == k by {
                        assert(v.by_id.contains_key(v.ids_by_uid[k][i]));
                    }
                }
            }
        }
        lemma_trim_user_list_keeps(next, uid, a);
    }
}

/// A new message never drops the anchor from the selected sender's cached
/// list (as long as the list may hold at least one message).
pub proof fn law_ingest_keeps_anchor(v: StoreView, m: DanmuMessage)
    requires
        v.inv(),
        m.message_id == v.next_message_id,
        v.next_message_id < usize::MAX,
        v.per_user_capacity >= 1,
        v.anchor_message_id is Some,
        v.selected_user_ids().contains(v.anchor_message_id->0),
    ensures
        v.ingest_message(m).anchor_message_id == v.anchor_message_id,
        v.ingest_message(m).selected_uid == v.selected_uid,
        v.ingest_message(m).selected_user_ids().contains(v.anchor_message_id->0),
{
    let a = v.anchor_message_id->0;
    lemma_appended_keeps_invariant(v, m);
    let v1 = appended(v, m);
    assert(v1.selected_user_ids().contains(a)) by {
        let u = v.selected_uid->0;
        let j = choose|j: int| 0 <= j < v.selected_user_ids().len() && v.selected_user_ids()[j] == a;
        assert(v1.selected_user_ids()[j] == a);
    }
    lemma_trim_main_keeps_invariant(v1);
    lemma_trim_main_keeps_anchor(v1);
    lemma_trim_main_frame(v1);
    let v2 = v1.trim_main();
    let uid = m.uid@;
    lemma_trim_user_keeps_anchor(v2, uid);
    let preserved = if v2.selected_uid == Some(uid) {
        v2.anchor_message_id
    } else {
        None
    };
    lemma_trim_user_frame(v2, uid, preserved);
}

/// After a message from the selected sender arrives, the anchor is visible,
/// unless the panel is frozen by hovering or scrolled by hand.
pub proof fn law_ingest_shows_anchor(v: StoreView, m: DanmuMessage)
    requires
        v.inv(),
        m.message_id == v.next_message_id,
        v.next_message_id < usize::MAX,
        v.per_user_capacity >= 1,
        v.anchor_message_id is Some,
        v.selected_user_ids().contains(v.anchor_message_id->0),
        v.selected_uid == Some(m.uid@),
        !v.hover_frozen,
        !v.person_manual_viewport,
    ensures
        anchor_visible(v.ingest_message(m)),
{
    law_ingest_keeps_anchor(v, m);
    law_ingest_keeps_invariant(v, m);
    let w = v.ingest_message(m);
    lemma_inv_lengths(w);
    let v1 = appended(v, m);
    lemma_trim_main_keeps_invariant(v1);
    lemma_trim_main_frame(v1);
    let v2 = v1.trim_main();
    let uid = m.uid@;
    let preserved = if v2.selected_uid == Some(uid) {
        v2.anchor_message_id
    } else {
        None
    };
    lemma_trim_user_frame(v2, uid, preserved);
    law_anchored_start_shows_anchor(
        w.selected_user_ids(),
        v.anchor_message_id->0,
        w.person_viewport_size as int,
    );
}

/// While the pointer hovers over the person panel, a new message still enters
/// the cache but does not move the panel (unless trimming removes rows).
pub proof fn law_hover_freezes_person_panel(v: StoreView, m: DanmuMessage)
    requires
        v.inv(),
        m.message_id == v.next_message_id,
        v.next_message_id < usize::MAX,
        v.hover_frozen,
        v.messages.len() < v.main_capacity,
        (if v.ids_by_uid.contains_key(m.uid@) {
            v.ids_by_uid[m.uid@].len()
        } else {
            0
        }) < v.per_user_capacity,
    ensures
        v.ingest_message(m).person_start_index == v.person_start_index,
        v.ingest_message(m).hover_frozen,
        v.ingest_message(m).by_id.contains_key(m.message_id),
        v.ingest_message(m).ids_by_uid.contains_key(m.uid@),
        v.ingest_message(m).ids_by_uid[m.uid@].last() == m.message_id,
{
    let v1 = appended(v, m);
    assert(v1.trim_main() == v1);
    let uid = m.uid@;
    assert(v1.trim_user(uid) == v1);
}

/// When the main viewport shows the newest message, resizing it keeps the
/// newest message at its bottom.
pub proof fn law_resize_keeps_bottom_pinned(v: StoreView, size: usize)
    requires
        v.inv(),
        v.main_at_bottom(),
    ensures
        v.set_main_viewport_size(size).main_start_index == v.set_main_viewport_size(
            size,
        ).main_max_start(),
        v.set_main_viewport_size(size).main_visible().len() == v.set_main_viewport_size(
            size,
        ).main_viewport_size || v.messages.len() <= v.set_main_viewport_size(size).main_viewport_size,
        v.set_main_viewport_size(size).main_hidden_newer_count() == 0,
{
    lemma_inv_lengths(v);
}

proof fn lemma_present_ignores_other_ids(ids: Seq<u64>, by_id: Map<u64, DanmuMessage>, k: u64, m: DanmuMessage)
    requires
        !ids.contains(k),
    ensures
        present_messages(ids, by_id.insert(k, m)) == present_messages(ids, by_id),
        last_present(ids, by_id.insert(k, m)) == last_present(ids, by_id),
    decreases ids.len(),
{
    if ids.len() > 0 {
        assert(!ids.drop_first().contains(k)) by {
            if ids.drop_first().contains(k) {
                let j = choose|j: int| 0 <= j < ids.drop_first().len() && ids.drop_first()[j] == k;
                assert(ids[j + 1] == k);
            }
        }
        assert(!ids.drop_last().contains(k)) by {
            if ids.drop_last().contains(k) {
                let j = choose|j: int| 0 <= j < ids.drop_last().len() && ids.drop_last()[j] == k;
                assert(ids[j] == k);
            }
        }
        assert(ids[0] != k);
        assert(ids.last() != k);
        lemma_present_ignores_other_ids(ids.drop_first(), by_id, k, m);
        lemma_present_ignores_other_ids(ids.drop_last(), by_id, k, m);
    }
}

/// The person panel of `w` is that of `v`: the same sender, anchor,
/// window, rows and hidden count.
pub open spec fn same_person_panel(w: StoreView, v: StoreView) -> bool {
    &&& w.selected_uid == v.selected_uid
    &&& w.anchor_message_id == v.anchor_message_id
    &&& w.hover_frozen == v.hover_frozen
    &&& w.person_manual_viewport == v.person_manual_viewport
    &&& w.person_start_index == v.person_start_index
    &&& w.person_viewport_size == v.person_viewport_size
    &&& w.selected_user_ids() == v.selected_user_ids()
    &&& w.person_window() == v.person_window()
    &&& w.person_visible() == v.person_visible()
    &&& w.person_hidden_newer_count() == v.person_hidden_newer_count()
    &&& w.selected_nickname() == v.selected_nickname()
    &&& anchor_visible(w) == anchor_visible(v)
}

/// A message from a sender other than the selected one leaves the person
/// panel as it was: the same rows, the same hidden count, the same anchor
/// (as long as the main list has room, so that no message is dropped).
pub proof fn law_other_sender_leaves_person_panel(v: StoreView, m: DanmuMessage)
    requires
        v.inv(),
        m.message_id == v.next_message_id,
        v.next_message_id < usize::MAX,
        v.selected_uid != Some(m.uid@),
        v.messages.len() < v.main_capacity,
    ensures
        same_person_panel(v.ingest_message(m), v),
{
    let v1 = appended(v, m);
    assert(v1.trim_main() == v1);
    let uid = m.uid@;
    lemma_trim_user_frame(v1, uid, None);
    let w = v.ingest_message(m);
    assert(w.selected_user_ids() == v.selected_user_ids()) by {
        match v.selected_uid {
            Some(u) => {
                assert(u != uid);
                assert(v1.ids_by_uid.contains_key(u) == v.ids_by_uid.contains_key(u));
                if v.ids_by_uid.contains_key(u) {
                    assert(v1.ids_by_uid[u] == v.ids_by_uid[u]);
                }
            },
            None => {},
        }
    }
    let ids = v.selected_user_ids();
    assert(!ids.contains(m.message_id)) by {
        if ids.contains(m.message_id) {
            let j = choose|j: int| 0 <= j < ids.len() && ids[j] == m.message_id;
            let u = v.selected_uid->0;
            assert(v.ids_by_uid.contains_key(u));
            assert(v.by_id.contains_key(ids[j]));
        }
    }
    assert(w.person_window() == v.person_window());
    let win = v.person_window();
    assert(!win.contains(m.message_id)) by {
        if win.contains(m.message_id) {
            let j = choose|j: int| 0 <= j < win.len() && win[j] == m.message_id;
            let start = if v.person_start_index < ids.len() {
                v.person_start_index as int
            } else {
                ids.len() as int
            };
            assert(ids[start + j] == m.message_id);
        }
    }
    assert(w.by_id == v.by_id.insert(m.message_id, m));
    lemma_present_ignores_other_ids(win, v.by_id, m.message_id, m);
    lemma_present_ignores_other_ids(ids, v.by_id, m.message_id, m);
}

/// In a rising list, `x` sits at the one position that holds it.
proof fn lemma_find_index_unique(s: Seq<u64>, x: u64, i: int)
    requires
        strictly_increasing(s),
        0 <= i < s.len(),
        s[i] == x,
    ensures
        find_index(s, x) == i,
{
    lemma_find_index(s, x);
    let f = find_index(s, x);
    assert(s.contains(x)) by {
        assert(s[i] == x);
    }
    if f < i {
        assert(s[f] < s[i]);
    } else if f > i {
        assert(s[i] < s[f]);
    }
}

/// Dropping another message from the selected sender's list keeps a visible
/// anchor visible.
proof fn lemma_removal_keeps_anchor_visible(v: StoreView, removed: DanmuMessage)
    requires
        strictly_increasing(v.selected_user_ids()),
        anchor_visible(v),
        Some(removed.message_id) != v.anchor_message_id,
    ensures
        anchor_visible(v.remove_from_user_index(removed)),
        v.remove_from_user_index(removed).anchor_message_id == v.anchor_message_id,
        v.remove_from_user_index(removed).selected_uid == v.selected_uid,
        v.remove_from_user_index(removed).person_viewport_size == v.person_viewport_size,
{
    let a = v.anchor_message_id->0;
    let w = v.remove_from_user_index(removed);
    let uid = removed.uid@;
    if v.ids_by_uid.contains_key(uid) {
        let ids = v.ids_by_uid[uid];
        let r = find_index(ids, removed.message_id);
        lemma_find_index(ids, removed.message_id);
        if r >= 0 {
            let ids2 = ids.remove(r);
            if v.selected_uid == Some(uid) {
                let i = find_index(ids, a);
                lemma_find_index(ids, a);
                assert(i >= 0);
                assert(r != i);
                lemma_remove_keeps_increasing(ids, r);
                let i2 = if r < i {
                    i - 1
                } else {
                    i
                };
                assert(ids2[i2] == a);
                lemma_find_index_unique(ids2, a, i2);
                assert(w.selected_user_ids() == ids2);
            } else {
                assert(w.selected_user_ids() == v.selected_user_ids()) by {
                    match v.selected_uid {
                        Some(u) => {
                            assert(w.ids_by_uid.contains_key(u) == v.ids_by_uid.contains_key(u));
                        },
                        None => {},
                    }
                }
            }
        }
    }
}

/// Dropping the oldest main messages keeps a visible anchor visible.
proof fn lemma_trim_main_keeps_anchor_visible(v: StoreView)
    requires
        v.inv(),
        anchor_visible(v),
    ensures
        anchor_visible(v.trim_main()),
        v.trim_main().anchor_message_id == v.anchor_message_id,
        v.trim_main().selected_uid == v.selected_uid,
    decreases v.messages.len(),
{
    if v.messages.len() > v.main_capacity {
        lemma_trim_main_step_keeps_invariant(v);
        let w = trim_main_step(v);
        let removed = v.messages[0];
        let u0 = StoreView { messages: v.messages.drop_first(), ..v };
        if Some(removed.message_id) != v.anchor_message_id {
            let u1 = StoreView { by_id: u0.by_id.remove(removed.message_id), ..u0 };
            assert(u1.selected_user_ids() == v.selected_user_ids());
            assert(strictly_increasing(v.selected_user_ids())) by {
                match v.selected_uid {
                    Some(u) => {
                        if v.ids_by_uid.contains_key(u) {
                            assert(strictly_increasing(v.ids_by_uid[u]));
                        }
                    },
                    None => {},
                }
            }
            lemma_removal_keeps_anchor_visible(u1, removed);
        }
        assert(anchor_visible(w));
        assert(v.trim_main() == w.trim_main());
        lemma_trim_main_keeps_anchor_visible(w);
    }
}

/// A new message never hides a visible anchor, as long as the person panel
/// is neither frozen by hovering nor scrolled by hand and a sender's list may
/// hold a message at all.
pub proof fn law_ingest_keeps_anchor_visible(v: StoreView, m: DanmuMessage)
    requires
        v.inv(),
        m.message_id == v.next_message_id,
        v.next_message_id < usize::MAX,
        v.per_user_capacity >= 1,
        !v.hover_frozen,
        !v.person_manual_viewport,
        anchor_visible(v),
    ensures
        anchor_visible(v.ingest_message(m)),
{
    let a = v.anchor_message_id->0;
    let ids = v.selected_user_ids();
    lemma_find_index(ids, a);
    if v.selected_uid == Some(m.uid@) {
        law_ingest_shows_anchor(v, m);
    } else {
        let uid = m.uid@;
        lemma_appended_keeps_invariant(v, m);
        let v1 = appended(v, m);
        assert(v1.selected_user_ids() == ids) by {
            match v.selected_uid {
                Some(u) => {
                    assert(v1.ids_by_uid.contains_key(u) == v.ids_by_uid.contains_key(u));
                },
                None => {},
            }
        }
        assert(anchor_visible(v1));
        lemma_trim_main_keeps_anchor_visible(v1);
        lemma_trim_main_keeps_invariant(v1);
        let v2 = v1.trim_main();
        lemma_trim_user_frame(v2, uid, None);
        let v3 = v2.trim_user(uid);
        assert(v3.selected_user_ids() == v2.selected_user_ids()) by {
            match v2.selected_uid {
                Some(u) => {
                    assert(v3.ids_by_uid.contains_key(u) == v2.ids_by_uid.contains_key(u));
                },
                None => {},
            }
        }
    }
}

proof fn lemma_anchored_start_in_range(ids: Seq<u64>, anchor: Option<u64>, size: int)
    requires
        size >= 1,
    ensures
        0 <= anchored_start(ids, anchor, size) <= spec_max_viewport_start(ids.len() as int, size),
{
    match anchor {
        Some(a) => {
            lemma_find_index(ids, a);
        },
        None => {},
    }
}

proof fn lemma_trim_main_bounds(v: StoreView)
    requires
        v.inv(),
        v.person_start_ok(),
    ensures
        v.trim_main().messages.len() <= v.main_capacity,
        v.trim_main().person_start_ok(),
        v.trim_main().person_viewport_size == v.person_viewport_size,
        v.trim_main().per_user_capacity == v.per_user_capacity,
        v.trim_main().main_capacity == v.main_capacity,
        forall|k: Seq<char>| #[trigger]
            v.trim_main().ids_by_uid.contains_key(k) ==> v.ids_by_uid.contains_key(k)
                && v.trim_main().ids_by_uid[k].len() <= v.ids_by_uid[k].len(),
    decreases v.messages.len(),
{
    if v.messages.len() > v.main_capacity {
        lemma_trim_main_step_keeps_invariant(v);
        let w = trim_main_step(v);
        let removed = v.messages[0];
        let u0 = StoreView { messages: v.messages.drop_first(), ..v };
        if Some(removed.message_id) != v.anchor_message_id {
            let u1 = StoreView { by_id: u0.by_id.remove(removed.message_id), ..u0 };
            let uid = removed.uid@;
            if u1.ids_by_uid.contains_key(uid) {
                let ids = u1.ids_by_uid[uid];
                let r = find_index(ids, removed.message_id);
                lemma_find_index(ids, removed.message_id);
                if r >= 0 && u1.selected_uid != Some(uid) {
                    assert(w.selected_user_ids() == v.selected_user_ids()) by {
                        match v.selected_uid {
                            Some(u) => {
                                assert(w.ids_by_uid.contains_key(u) == v.ids_by_uid.contains_key(u));
                            },
                            None => {},
                        }
                    }
                }
            }
        }
        assert(w.person_start_ok());
        assert forall|k: Seq<char>| #[trigger] w.ids_by_uid.contains_key(k) implies v.ids_by_uid.contains_key(k)
            && w.ids_by_uid[k].len() <= v.ids_by_uid[k].len() by {
        }
        assert(v.trim_main() == w.trim_main());
        lemma_trim_main_bounds(w);
    }
}

proof fn lemma_trim_user_list_bounds(v: StoreView, uid: Seq<char>, preserved: Option<u64>)
    ensures
        v.trim_user_list(uid, preserved).ids_by_uid.contains_key(uid) ==> v.trim_user_list(
            uid,
            preserved,
        ).ids_by_uid[uid].len() <= v.per_user_capacity,
        v.person_start_ok() ==> v.trim_user_list(uid, preserved).person_start_ok(),
        v.trim_user_list(uid, preserved).ids_by_uid.contains_key(uid) ==> v.ids_by_uid.contains_key(uid)
            && v.trim_user_list(uid, preserved).ids_by_uid[uid].len() <= v.ids_by_uid[uid].len(),
    decreases v.ids_by_uid[uid].len(),
{
    lemma_trim_user_frame(v, uid, preserved);
    let ids = v.ids_by_uid[uid];
    if v.ids_by_uid.contains_key(uid) && ids.len() > v.per_user_capacity {
        let idx = match preserved {
            Some(a) => if ids.contains(a) {
                let j = find_other(ids, a);
                if j < 0 {
                    0
                } else {
                    j
                }
            } else {
                0
            },
            None => 0,
        };
        if let Some(a) = preserved {
            lemma_find_other(ids, a);
        }
        let ids2 = ids.remove(idx);
        let next = StoreView {
            ids_by_uid: v.ids_by_uid.insert(uid, ids2),
            person_start_index: v.start_after_user_removal(uid, idx, ids2.len() as int) as usize,
            ..v
        };
        assert(v.trim_user_list(uid, preserved) == next.trim_user_list(uid, preserved));
        assert(v.person_start_ok() ==> next.person_start_ok()) by {
            if v.selected_uid != Some(uid) {
                assert(next.selected_user_ids() == v.selected_user_ids()) by {
                    match v.selected_uid {
                        Some(u) => {
                            assert(next.ids_by_uid.contains_key(u) == v.ids_by_uid.contains_key(u));
                        },
                        None => {},
                    }
                }
            }
        }
        lemma_trim_user_list_bounds(next, uid, preserved);
    }
}

/// Taking in a message keeps the store within its limits: the main list
/// holds at most `main_capacity` messages and each sender's list at most
/// `per_user_capacity` ids.
pub proof fn law_ingest_keeps_bounds(v: StoreView, m: DanmuMessage)
    requires
        v.inv(),
        v.bounded(),
        m.message_id == v.next_message_id,
        v.next_message_id < usize::MAX,
    ensures
        v.ingest_message(m).bounded(),
{
    let uid = m.uid@;
    lemma_appended_keeps_invariant(v, m);
    let v1 = appended(v, m);
    assert(v1.person_start_ok()) by {
        match v.selected_uid {
            Some(u) => {
                if u != uid {
                    assert(v1.ids_by_uid.contains_key(u) == v.ids_by_uid.contains_key(u));
                }
            },
            None => {},
        }
    }
    lemma_trim_main_bounds(v1);
    lemma_trim_main_keeps_invariant(v1);
    let v2 = v1.trim_main();
    let preserved = if v2.selected_uid == Some(uid) {
        v2.anchor_message_id
    } else {
        None
    };
    lemma_trim_user_list_bounds(v2, uid, preserved);
    lemma_trim_user_frame(v2, uid, preserved);
    let v3 = v2.trim_user(uid);
    assert forall|k: Seq<char>| #[trigger] v3.ids_by_uid.contains_key(k) implies v3.ids_by_uid[k].len()
        <= v3.per_user_capacity by {
        if k != uid {
            assert(v2.ids_by_uid.contains_key(k));
            assert(v1.ids_by_uid.contains_key(k) && v1.ids_by_uid[k] == v.ids_by_uid[k]);
        }
    }
    lemma_anchored_start_in_range(v3.selected_user_ids(), v3.anchor_message_id, v3.person_viewport_size as int);
    let w = v.ingest_message(m);
    assert(w.selected_user_ids() == v3.selected_user_ids());
}

/// Selecting an anchor keeps the store within its limits.
pub proof fn law_select_user_anchor_keeps_bounds(v: StoreView, id: u64)
    requires
        v.inv(),
        v.bounded(),
    ensures
        v.select_user_anchor(id).bounded(),
{
    if v.by_id.contains_key(id) {
        let u = v.by_id[id].uid@;
        let v0 = StoreView {
            selected_uid: Some(u),
            anchor_message_id: Some(id),
            hover_frozen: false,
            person_manual_viewport: false,
            ..v
        };
        let ids = v0.selected_user_ids();
        let v1 = if ids.contains(id) {
            v0
        } else {
            StoreView { ids_by_uid: v0.ids_by_uid.insert(u, insert_sorted(ids, id)), ..v0 }.trim_user_list(
                u,
                Some(id),
            )
        };
        if !ids.contains(id) {
            let w = StoreView { ids_by_uid: v0.ids_by_uid.insert(u, insert_sorted(ids, id)), ..v0 };
            lemma_trim_user_list_bounds(w, u, Some(id));
            lemma_trim_user_frame(w, u, Some(id));
            assert forall|k: Seq<char>| #[trigger] v1.ids_by_uid.contains_key(k) implies v1.ids_by_uid[k].len()
                <= v1.per_user_capacity by {
                if k != u {
                    assert(w.ids_by_uid.contains_key(k) && w.ids_by_uid[k] == v.ids_by_uid[k]);
                }
            }
        }
        lemma_anchored_start_in_range(v1.selected_user_ids(), Some(id), v1.person_viewport_size as int);
    }
}

proof fn lemma_ack_keeps_bounds(v: StoreView, id: u64, uid: Seq<char>)
    requires
        v.inv(),
        v.bounded(),
    ensures
        v.ack_message(id).bounded(),
        v.ack_user_messages(uid).bounded(),
{
    let w = v.ack_message(id);
    crate::store_model::lemma_find_message(v.messages, id);
    assert(w.selected_user_ids() == v.selected_user_ids());
    assert(w.messages.len() == v.messages.len());
    let w2 = v.ack_user_messages(uid);
    assert(w2.selected_user_ids() == v.selected_user_ids());
    assert(w2.messages.len() == v.messages.len());
}

proof fn lemma_panel_ops_keep_bounds(v: StoreView, value: bool, delta: int)
    requires
        v.inv(),
        v.bounded(),
    ensures
        v.set_person_panel_hover(value).bounded(),
        v.scroll_main_viewport(delta).bounded(),
        v.scroll_person_viewport(delta).bounded(),
{
    lemma_anchored_start_in_range(v.selected_user_ids(), v.anchor_message_id, v.person_viewport_size as int);
}

proof fn lemma_resize_keeps_bounds(v: StoreView, main: Option<usize>, person: Option<usize>)
    requires
        v.inv(),
        v.bounded(),
    ensures
        v.set_viewport_sizes(main, person).bounded(),
{
    let w = match main {
        Some(x) => v.set_main_viewport_size(x),
        None => v,
    };
    assert(w.bounded());
    match person {
        Some(y) => {
            let w2 = StoreView {
                person_viewport_size: crate::viewport::spec_clamp_viewport_size(y as int) as usize,
                ..w
            };
            lemma_anchored_start_in_range(
                w2.selected_user_ids(),
                w2.anchor_message_id,
                w2.person_viewport_size as int,
            );
        },
        None => {},
    }
}

/// Reading, hovering, scrolling and resizing keep the store within its limits.
pub proof fn law_view_operations_keep_bounds(
    v: StoreView,
    id: u64,
    uid: Seq<char>,
    value: bool,
    delta: int,
    main: Option<usize>,
    person: Option<usize>,
)
    requires
        v.inv(),
        v.bounded(),
    ensures
        v.ack_message(id).bounded(),
        v.ack_user_messages(uid).bounded(),
        v.set_person_panel_hover(value).bounded(),
        v.scroll_main_viewport(delta).bounded(),
        v.scroll_person_viewport(delta).bounded(),
        v.set_viewport_sizes(main, person).bounded(),
{
    lemma_ack_keeps_bounds(v, id, uid);
    lemma_panel_ops_keep_bounds(v, value, delta);
    lemma_resize_keeps_bounds(v, main, person);
}

proof fn lemma_present_all(ids: Seq<u64>, by_id: Map<u64, DanmuMessage>)
    requires
        forall|i: int| 0 <= i < ids.len() ==> by_id.contains_key(#[trigger] ids[i]),
    ensures
        present_messages(ids, by_id).len() == ids.len(),
        forall|i: int| 0 <= i < ids.len() ==> #[trigger] present_messages(ids, by_id)[i] == by_id[ids[i]],
    decreases ids.len(),
{
    if ids.len() > 0 {
        let rest = ids.drop_first();
        assert forall|i: int| 0 <= i < rest.len() implies by_id.contains_key(#[trigger] rest[i]) by {
            assert(rest[i] == ids[i + 1]);
        }
        lemma_present_all(rest, by_id);
        assert(by_id.contains_key(ids[0]));
        assert forall|i: int| 0 <= i < ids.len() implies #[trigger] present_messages(ids, by_id)[i]
            == by_id[ids[i]] by {
            if i > 0 {
                assert(present_messages(ids, by_id)[i] == present_messages(rest, by_id)[i - 1]);
                assert(rest[i - 1] == ids[i]);
            }
        }
    }
}

/// `a` or `b`, whichever is smaller.
pub open spec fn min_int(a: int, b: int) -> int {
    if a < b {
        a
    } else {
        b
    }
}

/// In every state the store reaches, both viewports are as full as the rows
/// allow: the main viewport shows `min(size, messages)` rows from its start,
/// the person panel `min(size, ids of the selected sender)` messages, one
/// per id of its window, and the hidden counts are the rows after the window.
pub proof fn law_snapshot_rows_fill_viewports(v: StoreView)
    requires
        v.inv(),
        v.bounded(),
    ensures
        v.main_visible() == v.messages.subrange(
            v.main_start_index as int,
            min_int(v.main_start_index + v.main_viewport_size, v.messages.len() as int),
        ),
        v.main_visible().len() == min_int(v.main_viewport_size as int, v.messages.len() as int),
        v.main_hidden_newer_count() == saturating_sub(
            v.messages.len() as int,
            v.main_start_index + v.main_viewport_size,
        ),
        v.person_window().len() == min_int(
            v.person_viewport_size as int,
            v.selected_user_ids().len() as int,
        ),
        v.person_visible().len() == v.person_window().len(),
        forall|i: int|
            0 <= i < v.person_window().len() ==> #[trigger] v.person_visible()[i]
                == v.by_id[v.person_window()[i]],
        v.person_hidden_newer_count() == saturating_sub(
            v.selected_user_ids().len() as int,
            v.person_start_index + v.person_viewport_size,
        ),
{
    let ids = v.selected_user_ids();
    let win = v.person_window();
    assert forall|i: int| 0 <= i < win.len() implies v.by_id.contains_key(#[trigger] win[i]) by {
        let start = if v.person_start_index < ids.len() {
            v.person_start_index as int
        } else {
            ids.len() as int
        };
        assert(win[i] == ids[start + i]);
        let u = v.selected_uid->0;
        assert(v.ids_by_uid.contains_key(u));
        assert(v.by_id.contains_key(v.ids_by_uid[u][start + i]));
    }
    lemma_present_all(win, v.by_id);
}

/// Resizing shows as many rows as the new size allows: `Some(a)` gives the
/// main viewport `min(a clamped into 1..=100, messages)` rows, `Some(b)` the
/// person panel `min(b clamped into 1..=100, ids of the selected sender)`
/// rows, and a `None` leaves that viewport as it was.
pub proof fn law_set_viewport_sizes_rows(v: StoreView, main: Option<usize>, person: Option<usize>)
    requires
        v.inv(),
        v.bounded(),
    ensures
        ({
            let w = v.set_viewport_sizes(main, person);
            &&& main matches Some(a) ==> w.main_visible().len() == min_int(
                crate::viewport::spec_clamp_viewport_size(a as int),
                v.messages.len() as int,
            )
            &&& main is None ==> w.main_viewport_size == v.main_viewport_size && w.main_start_index
                == v.main_start_index && w.main_visible() == v.main_visible()
            &&& person matches Some(b) ==> w.person_visible().len() == min_int(
                crate::viewport::spec_clamp_viewport_size(b as int),
                v.selected_user_ids().len() as int,
            )
            &&& person is None ==> w.person_viewport_size == v.person_viewport_size
                && w.person_start_index == v.person_start_index && w.person_visible() == v.person_visible()
        }),
{
    let w = v.set_viewport_sizes(main, person);
    law_set_viewport_sizes_keeps_invariant(v, main, person);
    lemma_resize_keeps_bounds(v, main, person);
    law_snapshot_rows_fill_viewports(w);
}

proof fn lemma_find_message_by_ids(a: Seq<DanmuMessage>, b: Seq<DanmuMessage>, id: u64)
    requires
        a.len() == b.len(),
        forall|i: int| 0 <= i < a.len() ==> #[trigger] a[i].message_id == b[i].message_id,
    ensures
        find_message(a, id) == find_message(b, id),
    decreases a.len(),
{
    if a.len() > 0 {
        assert forall|i: int| 0 <= i < a.drop_first().len() implies #[trigger] a.drop_first()[i].message_id
            == b.drop_first()[i].message_id by {
            assert(a[i + 1].message_id == b[i + 1].message_id);
        }
        lemma_find_message_by_ids(a.drop_first(), b.drop_first(), id);
    }
}

/// Acknowledging a message a second time changes nothing.
pub proof fn law_ack_message_is_idempotent(v: StoreView, id: u64)
    requires
        v.inv(),
    ensures
        v.ack_message(id).ack_message(id) == v.ack_message(id),
{
    let w = v.ack_message(id);
    let w2 = w.ack_message(id);
    crate::store_model::lemma_find_message(v.messages, id);
    let k = find_message(v.messages, id);
    lemma_find_message_by_ids(w.messages, v.messages, id);
    assert(w2.messages =~= w.messages) by {
        if k >= 0 {
            assert(w.messages[k] == mark_read(v.messages[k]));
            assert(mark_read(w.messages[k]) == w.messages[k]);
        }
    }
    assert(w2.by_id =~= w.by_id) by {
        if v.by_id.contains_key(id) {
            assert(mark_read(w.by_id[id]) == w.by_id[id]);
        }
    }
    let m = w.messages;
    let s0 = v.main_start_index as int;
    lemma_inv_lengths(v);
    assert(m.len() == v.messages.len());
    assert(s0 <= m.len());
    lemma_advance_past_read(m, s0);
    let a = advance_past_read(m, s0);
    let c = w.main_start_index as int;
    lemma_advance_past_read(m, c);
    if a <= spec_max_viewport_start(m.len() as int, v.main_viewport_size as int) {
        assert(c == a);
        assert(advance_past_read(m, c) == c);
    }
    assert(w2 =~= w);
}

/// While the person panel is frozen by hovering or scrolled by hand, a new
/// message from the selected sender is cached but the panel keeps its rows:
/// one more message is counted as hidden below a full panel (as long as no
/// message has to be dropped).
pub proof fn law_frozen_panel_keeps_rows(v: StoreView, m: DanmuMessage)
    requires
        v.inv(),
        m.message_id == v.next_message_id,
        v.next_message_id < usize::MAX,
        v.hover_frozen || v.person_manual_viewport,
        v.selected_uid == Some(m.uid@),
        v.messages.len() < v.main_capacity,
        v.selected_user_ids().len() < v.per_user_capacity,
        v.person_window().len() == v.person_viewport_size,
    ensures
        ({
            let w = v.ingest_message(m);
            &&& w.person_start_index == v.person_start_index
            &&& w.selected_user_ids() == v.selected_user_ids().push(m.message_id)
            &&& w.person_window() == v.person_window()
            &&& w.person_visible() == v.person_visible()
            &&& w.person_hidden_newer_count() == v.person_hidden_newer_count() + 1
        }),
{
    let uid = m.uid@;
    let v1 = appended(v, m);
    assert(v1.trim_main() == v1);
    let ids = v.selected_user_ids();
    assert(v1.ids_by_uid[uid] == ids.push(m.message_id));
    assert(v1.trim_user(uid) == v1);
    let w = v.ingest_message(m);
    assert(w.selected_user_ids() == ids.push(m.message_id));
    assert(!ids.contains(m.message_id)) by {
        if ids.contains(m.message_id) {
            let j = choose|j: int| 0 <= j < ids.len() && ids[j] == m.message_id;
            assert(v.ids_by_uid.contains_key(uid));
            assert(v.by_id.contains_key(ids[j]));
        }
    }
    assert(w.person_window() =~= v.person_window());
    let win = v.person_window();
    assert(!win.contains(m.message_id)) by {
        if win.contains(m.message_id) {
            let j = choose|j: int| 0 <= j < win.len() && win[j] == m.message_id;
            assert(ids[v.person_start_index + j] == m.message_id);
        }
    }
    lemma_present_ignores_other_ids(win, v.by_id, m.message_id, m);
}

/// The rows of the main viewport after a message arrives (while the main
/// list has room): a viewport pinned to the newest row moves down by one to
/// show the new message; any other viewport keeps its rows and shows the
/// new message below them only if it had room for it.
pub proof fn law_ingest_main_rows(v: StoreView, m: DanmuMessage)
    requires
        v.inv(),
        m.message_id == v.next_message_id,
        v.next_message_id < usize::MAX,
        v.messages.len() < v.main_capacity,
    ensures
        v.main_at_bottom() ==> v.ingest_message(m).main_visible() == v.main_visible().drop_first().push(m),
        !v.main_at_bottom() ==> v.ingest_message(m).main_visible() == (if v.main_visible().len()
            < v.main_viewport_size {
            v.main_visible().push(m)
        } else {
            v.main_visible()
        }),
{
    let w = v.ingest_message(m);
    let l = v.messages.len() as int;
    let k = v.main_viewport_size as int;
    let st = v.main_start_index as int;
    if v.main_at_bottom() {
        law_ingest_keeps_bottom_pinned(v, m);
        let v1 = appended(v, m);
        assert(v1.trim_main() == v1);
        let uid = m.uid@;
        let preserved = if v1.selected_uid == Some(uid) {
            v1.anchor_message_id
        } else {
            None
        };
        lemma_trim_user_frame(v1, uid, preserved);
        assert(w.messages == v.messages.push(m));
        assert(w.main_viewport_size == v.main_viewport_size);
        assert(st == l - k);
        assert(w.main_start_index == l + 1 - k);
        assert(w.main_visible() =~= v.main_visible().drop_first().push(m));
    } else {
        law_ingest_does_not_scroll_main_viewport(v, m);
        let v1 = appended(v, m);
        let uid = m.uid@;
        let preserved = if v1.selected_uid == Some(uid) {
            v1.anchor_message_id
        } else {
            None
        };
        lemma_trim_user_frame(v1, uid, preserved);
        assert(w.main_viewport_size == v.main_viewport_size);
        assert(st <= l);
        assert(w.main_visible() =~= (if v.main_visible().len() < v.main_viewport_size {
            v.main_visible().push(m)
        } else {
            v.main_visible()
        }));
    }
}

/// Only an accepted message takes an id: every other operation keeps the
/// next id, so the n-th accepted message of a new store gets id n.
pub proof fn law_only_accepted_messages_take_ids(
    v: StoreView,
    id: u64,
    uid: Seq<char>,
    value: bool,
    delta: int,
    main: Option<usize>,
    person: Option<usize>,
)
    requires
        v.inv(),
    ensures
        v.ack_message(id).next_message_id == v.next_message_id,
        v.ack_user_messages(uid).next_message_id == v.next_message_id,
        v.select_user_anchor(id).next_message_id == v.next_message_id,
        v.set_person_panel_hover(value).next_message_id == v.next_message_id,
        v.scroll_main_viewport(delta).next_message_id == v.next_message_id,
        v.scroll_person_viewport(delta).next_message_id == v.next_message_id,
        v.set_viewport_sizes(main, person).next_message_id == v.next_message_id,
{
    if v.by_id.contains_key(id) {
        let u = v.by_id[id].uid@;
        let v0 = StoreView {
            selected_uid: Some(u),
            anchor_message_id: Some(id),
            hover_frozen: false,
            person_manual_viewport: false,
            ..v
        };
        let ids = v0.selected_user_ids();
        if !ids.contains(id) {
            let w = StoreView { ids_by_uid: v0.ids_by_uid.insert(u, insert_sorted(ids, id)), ..v0 };
            lemma_trim_user_frame(w, u, Some(id));
        }
    }
}

/// An accepted message takes the next id and advances it by one.
pub proof fn law_ingest_advances_next_id(v: StoreView, m: DanmuMessage)
    ensures
        v.ingest_message(m).next_message_id == (v.next_message_id + 1) as u64,
{
    let v1 = appended(v, m);
    lemma_trim_main_frame(v1);
    let v2 = v1.trim_main();
    let uid = m.uid@;
    let preserved = if v2.selected_uid == Some(uid) {
        v2.anchor_message_id
    } else {
        None
    };
    lemma_trim_user_frame(v2, uid, preserved);
}

/// Acknowledging a sender marks read every cached message whose id is in
/// that sender's list, and leaves every other cached message as it was; so a
/// person panel showing that sender shows all its rows read.
pub proof fn law_ack_user_messages_marks_cached_messages(v: StoreView, uid: Seq<char>)
    requires
        v.inv(),
    ensures
        ({
            let w = v.ack_user_messages(uid);
            &&& forall|k: u64| #[trigger] w.by_id.contains_key(k) <==> v.by_id.contains_key(k)
            &&& forall|k: u64|
                #[trigger] v.by_id.contains_key(k) ==> w.by_id[k] == (if v.ids_by_uid.contains_key(uid)
                    && v.ids_by_uid[uid].contains(k) {
                    DanmuMessage { read: true, ..v.by_id[k] }
                } else {
                    v.by_id[k]
                })
            &&& v.selected_uid == Some(uid) ==> w.person_visible().len() == v.person_visible().len()
            &&& v.selected_uid == Some(uid) ==> forall|i: int|
                0 <= i < w.person_visible().len() ==> (#[trigger] w.person_visible()[i]).read
        }),
{
    let w = v.ack_user_messages(uid);
    law_ack_user_messages_keeps_invariant(v, uid);
    assert(w.selected_user_ids() == v.selected_user_ids());
    assert(w.person_window() == v.person_window());
    if v.selected_uid == Some(uid) {
        let ids = v.selected_user_ids();
        let win = v.person_window();
        assert forall|i: int| 0 <= i < win.len() implies v.by_id.contains_key(#[trigger] win[i]) && ids.contains(win[i]) by {
            let start = if v.person_start_index < ids.len() {
                v.person_start_index as int
            } else {
                ids.len() as int
            };
            assert(win[i] == ids[start + i]);
            assert(v.ids_by_uid.contains_key(uid));
            assert(v.by_id.contains_key(v.ids_by_uid[uid][start + i]));
        }
        lemma_present_all(win, v.by_id);
        lemma_present_all(win, w.by_id);
        assert forall|i: int| 0 <= i < w.person_visible().len() implies (#[trigger] w.person_visible()[i]).read by {
            assert(w.person_visible()[i] == w.by_id[win[i]]);
            assert(ids.contains(win[i]));
        }
    }
}

/// Acknowledging a message marks that message read, both in the main list
/// and in the cache, and changes no other message.
pub proof fn law_ack_message_marks_only_that_message(v: StoreView, id: u64)
    requires
        v.inv(),
    ensures
        ({
            let w = v.ack_message(id);
            &&& w.messages.len() == v.messages.len()
            &&& forall|j: int|
                0 <= j < v.messages.len() ==> #[trigger] w.messages[j] == (if v.messages[j].message_id
                    == id {
                    DanmuMessage { read: true, ..v.messages[j] }
                } else {
                    v.messages[j]
                })
            &&& forall|k: u64| #[trigger] w.by_id.contains_key(k) <==> v.by_id.contains_key(k)
            &&& forall|k: u64|
                #[trigger] v.by_id.contains_key(k) ==> w.by_id[k] == (if k == id {
                    DanmuMessage { read: true, ..v.by_id[k] }
                } else {
                    v.by_id[k]
                })
        }),
{
    crate::store_model::lemma_find_message(v.messages, id);
    let k = find_message(v.messages, id);
    assert forall|j: int| 0 <= j < v.messages.len() && v.messages[j].message_id == id implies j == k by {
        if j != k {
            if j < k {
                assert(v.messages[j].message_id != id);
            } else {
                assert(k >= 0);
                assert(v.messages[k].message_id < v.messages[j].message_id);
            }
        }
    }
}

} // verus!
