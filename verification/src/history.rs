//! The notification history: a bounded list of past notifications, newest
//! first, in which each notification id occurs at most once per push.
//!
//! Reading and writing the history file is left to the caller: a history is
//! built from the entries that were read back, and `persist()` tells whether
//! the caller writes it out after each change.
use std::collections::VecDeque;

use vstd::prelude::*;

use crate::notification::{Notification, Urgency};

verus! {

// ── History entry ─────────────────────────────────────────────────────────────

/// A notification as it is kept in the history (without actions or hints).
#[derive(Debug, Clone, PartialEq, Eq)]
pub struct HistoryEntry {
    pub id: u32,
    pub app_name: String,
    pub app_icon: String,
    pub summary: String,
    pub body: String,
    pub urgency: Urgency,
    pub timestamp: u64,
    /// The notification's requested timeout (-1 = server default, 0 = never).
    pub expire_timeout: i32,
}

/// A history entry with its strings taken as character sequences.
pub struct EntryView {
    pub id: u32,
    pub app_name: Seq<char>,
    pub app_icon: Seq<char>,
    pub summary: Seq<char>,
    pub body: Seq<char>,
    pub urgency: Urgency,
    pub timestamp: u64,
    pub expire_timeout: i32,
}

impl View for HistoryEntry {
    type V = EntryView;

    open spec fn view(&self) -> EntryView {
        EntryView {
            id: self.id,
            app_name: self.app_name@,
            app_icon: self.app_icon@,
            summary: self.summary@,
            body: self.body@,
            urgency: self.urgency,
            timestamp: self.timestamp,
            expire_timeout: self.expire_timeout,
        }
    }
}

/// The history entry that records a notification.
pub open spec fn entry_of(n: &Notification) -> EntryView {
    EntryView {
        id: n.id,
        app_name: n.app_name@,
        app_icon: n.app_icon@,
        summary: n.summary@,
        body: n.body@,
        urgency: n.urgency,
        timestamp: n.timestamp,
        expire_timeout: n.expire_timeout,
    }
}

/// A list of entries by their views.
pub open spec fn entries_view(v: Seq<HistoryEntry>) -> Seq<EntryView> {
    v.map_values(|e: HistoryEntry| e@)
}

impl HistoryEntry {
    /// The entry that records `n`.
    pub fn from_notification(n: &Notification) -> (r: HistoryEntry)
        ensures
            r@ == entry_of(n),
            r.id == n.id,
            r.app_name@ == n.app_name@,
            r.app_icon@ == n.app_icon@,
            r.summary@ == n.summary@,
            r.body@ == n.body@,
            r.urgency == n.urgency,
            r.timestamp == n.timestamp,
            r.expire_timeout == n.expire_timeout,
    {
        HistoryEntry {
            id: n.id,
            app_name: n.app_name.clone(),
            app_icon: n.app_icon.clone(),
            summary: n.summary.clone(),
            body: n.body.clone(),
            urgency: n.urgency,
            timestamp: n.timestamp,
            expire_timeout: n.expire_timeout,
        }
    }

    /// A copy of this entry.
    pub fn duplicate(&self) -> (r: HistoryEntry)
        ensures
            r@ == self@,
    {
        HistoryEntry {
            id: self.id,
            app_name: self.app_name.clone(),
            app_icon: self.app_icon.clone(),
            summary: self.summary.clone(),
            body: self.body.clone(),
            urgency: self.urgency,
            timestamp: self.timestamp,
            expire_timeout: self.expire_timeout,
        }
    }
}

// ── History store ─────────────────────────────────────────────────────────────

/// Entries whose id is not `id`, in their order.
pub open spec fn without_id(s: Seq<EntryView>, id: u32) -> Seq<EntryView> {
    s.filter(|x: EntryView| x.id != id)
}

/// The first `max` entries of `s` (all of them if there are fewer).
pub open spec fn at_most(s: Seq<EntryView>, max: nat) -> Seq<EntryView> {
    if s.len() > max {
        s.take(max as int)
    } else {
        s
    }
}

/// The history after recording `e`: `e` first, then the older entries with
/// another id, cut to `max` entries.
pub open spec fn spec_push(s: Seq<EntryView>, e: EntryView, max: nat) -> Seq<EntryView> {
    at_most(seq![e] + without_id(s, e.id), max)
}

/// The history after removing by id: with an id, every entry of that id
/// leaves; with none, the history is left as it is.
pub open spec fn spec_remove(s: Seq<EntryView>, id: Option<u32>) -> Seq<EntryView> {
    match id {
        Some(i) => without_id(s, i),
        None => s,
    }
}

/// A filter that keeps every element keeps the sequence.
proof fn lemma_filter_keeps_all(t: Seq<EntryView>, id: u32)
    requires
        forall|i: int| 0 <= i < t.len() ==> #[trigger] t[i].id != id,
    ensures
        without_id(t, id) == t,
    decreases t.len(),
{
    reveal_with_fuel(Seq::<_>::filter, 1);
    if t.len() > 0 {
        lemma_filter_keeps_all(t.drop_last(), id);
        assert(t.drop_last().push(t.last()) =~= t);
    }
}

/// The older entries kept by a push never carry the pushed id.
proof fn lemma_without_id_excludes(s: Seq<EntryView>, id: u32)
    ensures
        forall|i: int| 0 <= i < without_id(s, id).len() ==> #[trigger] without_id(s, id)[i].id != id,
{
    broadcast use vstd::seq_lib::group_filter_ensures;
}

// ── Laws ──────────────────────────────────────────────────────────────────────

/// After a push into a history of positive bound, the pushed entry is the
/// newest, no other entry carries its id, and the bound holds.
pub proof fn lemma_push_newest_unique(s: Seq<EntryView>, e: EntryView, max: nat)
    requires
        max > 0,
    ensures
        spec_push(s, e, max).len() >= 1,
        spec_push(s, e, max)[0] == e,
        forall|i: int| 1 <= i < spec_push(s, e, max).len() ==> #[trigger] spec_push(s, e, max)[i].id != e.id,
        spec_push(s, e, max).len() <= max,
{
    lemma_without_id_excludes(s, e.id);
    let t = seq![e] + without_id(s, e.id);
    assert forall|i: int| 1 <= i < spec_push(s, e, max).len() implies #[trigger] spec_push(s, e, max)[i].id != e.id by {
        assert(spec_push(s, e, max)[i] == t[i]);
        assert(t[i] == without_id(s, e.id)[i - 1]);
    }
}

/// Pushing the same notification twice leaves the history as one push does.
pub proof fn lemma_push_idempotent(s: Seq<EntryView>, e: EntryView, max: nat)
    ensures
        spec_push(spec_push(s, e, max), e, max) == spec_push(s, e, max),
{
    let p = spec_push(s, e, max);
    if max == 0 {
        assert(p =~= Seq::<EntryView>::empty());
        assert(spec_push(p, e, max) =~= Seq::<EntryView>::empty());
    } else {
        lemma_push_newest_unique(s, e, max);
        let rest = p.drop_first();
        assert(seq![e] + rest =~= p);
        assert forall|i: int| 0 <= i < rest.len() implies #[trigger] rest[i].id != e.id by {
            assert(rest[i] == p[i + 1]);
        }
        lemma_filter_keeps_all(rest, e.id);
        rest.lemma_filter_prepend(e, |x: EntryView| x.id != e.id);
        assert(without_id(p, e.id) =~= rest);
        assert(seq![e] + without_id(p, e.id) =~= p);
    }
}

/// The history after pushing `es`, in order, onto `s`.
pub open spec fn push_all(s: Seq<EntryView>, es: Seq<EntryView>, max: nat) -> Seq<EntryView>
    decreases es.len(),
{
    if es.len() == 0 {
        s
    } else {
        spec_push(push_all(s, es.drop_last(), max), es.last(), max)
    }
}

/// Pushing notifications of distinct ids, no more than the bound, onto an
/// empty history leaves them all, newest first.
pub proof fn lemma_pushes_newest_first(es: Seq<EntryView>, max: nat)
    requires
        es.len() <= max,
        forall|i: int, j: int| 0 <= i < j < es.len() ==> es[i].id != es[j].id,
    ensures
        push_all(Seq::empty(), es, max) == es.reverse(),
    decreases es.len(),
{
    if es.len() == 0 {
        assert(es.reverse() =~= Seq::<EntryView>::empty());
    } else {
        let init = es.drop_last();
        let e = es.last();
        lemma_pushes_newest_first(init, max);
        let p = push_all(Seq::empty(), init, max);
        assert(p == init.reverse());
        assert forall|i: int| 0 <= i < p.len() implies #[trigger] p[i].id != e.id by {
            assert(p[i] == init[init.len() - 1 - i]);
            assert(init[init.len() - 1 - i] == es[init.len() - 1 - i]);
        }
        lemma_filter_keeps_all(p, e.id);
        let t = seq![e] + p;
        assert(t.len() == es.len());
        assert forall|i: int| 0 <= i < t.len() implies #[trigger] t[i] == es.reverse()[i] by {
            if i > 0 {
                assert(t[i] == p[i - 1]);
                assert(p[i - 1] == init[init.len() - 1 - (i - 1)]);
            }
        }
        assert(t =~= es.reverse());
    }
}

/// Removing by id leaves no entry with that id.
pub proof fn lemma_remove_excludes(s: Seq<EntryView>, id: u32)
    ensures
        forall|i: int| 0 <= i < spec_remove(s, Some(id)).len() ==> #[trigger] spec_remove(s, Some(id))[i].id != id,
        spec_remove(s, Some(id)).len() <= s.len(),
{
    broadcast use vstd::seq_lib::group_filter_ensures;
    lemma_without_id_excludes(s, id);
}

/// The entries that carry `id` and the entries that do not together make up
/// the whole history.
proof fn lemma_split_by_id_len(s: Seq<EntryView>, id: u32)
    ensures
        without_id(s, id).len() + s.filter(|x: EntryView| x.id == id).len() == s.len(),
    decreases s.len(),
{
    reveal_with_fuel(Seq::<_>::filter, 1);
    if s.len() > 0 {
        lemma_split_by_id_len(s.drop_last(), id);
    }
}

/// Removing notification `id` takes out exactly its entries: every entry of
/// another id stays, nothing else is left, and the history shrinks by the
/// number of entries of `id`. Removing with no id changes nothing.
pub proof fn lemma_remove_keeps_others(s: Seq<EntryView>, id: u32)
    ensures
        forall|j: int| 0 <= j < s.len() && s[j].id != id ==> #[trigger] spec_remove(s, Some(id)).contains(s[j]),
        forall|x: EntryView| #[trigger] spec_remove(s, Some(id)).contains(x) ==> s.contains(x) && x.id != id,
        spec_remove(s, Some(id)).len() == s.len() - s.filter(|x: EntryView| x.id == id).len(),
        spec_remove(s, None) == s,
{
    broadcast use vstd::seq_lib::group_filter_ensures;
    let pred = |x: EntryView| x.id != id;
    assert forall|j: int| 0 <= j < s.len() && s[j].id != id implies #[trigger] spec_remove(s, Some(id)).contains(s[j]) by {
        s.lemma_filter_contains(pred, j);
    }
    assert forall|x: EntryView| #[trigger] spec_remove(s, Some(id)).contains(x) implies s.contains(x) && x.id != id by {
        s.lemma_filter_contains_rev(pred, x);
        let k = choose|k: int| 0 <= k < s.filter(pred).len() && s.filter(pred)[k] == x;
        s.lemma_filter_pred(pred, k);
    }
    lemma_split_by_id_len(s, id);
}

/// A push records the notification itself: with a positive bound, the newest
/// entry has the notification's id, application, icon, summary, body,
/// urgency, timestamp and timeout.
pub proof fn lemma_push_records_notification(s: Seq<EntryView>, n: Notification, max: nat)
    requires
        max > 0,
    ensures
        spec_push(s, entry_of(&n), max).len() >= 1,
        spec_push(s, entry_of(&n), max)[0].id == n.id,
        spec_push(s, entry_of(&n), max)[0].app_name == n.app_name@,
        spec_push(s, entry_of(&n), max)[0].app_icon == n.app_icon@,
        spec_push(s, entry_of(&n), max)[0].summary == n.summary@,
        spec_push(s, entry_of(&n), max)[0].body == n.body@,
        spec_push(s, entry_of(&n), max)[0].urgency == n.urgency,
        spec_push(s, entry_of(&n), max)[0].timestamp == n.timestamp,
        spec_push(s, entry_of(&n), max)[0].expire_timeout == n.expire_timeout,
{
    lemma_push_newest_unique(s, entry_of(&n), max);
}

/// A bounded, newest-first history of notifications.
pub struct History {
    entries: VecDeque<HistoryEntry>,
    max_size: usize,
    persist: bool,
}

impl View for History {
    type V = Seq<EntryView>;

    closed spec fn view(&self) -> Seq<EntryView> {
        entries_view(self.entries@)
    }
}

impl History {
    /// The history never holds more than its bound.
    #[verifier::type_invariant]
    spec fn bounded(self) -> bool {
        self.entries@.len() <= self.max_size
    }

    /// The bound that the history was made with.
    pub closed spec fn spec_max_size(&self) -> nat {
        self.max_size as nat
    }

    /// Whether the history is written to disk after each change.
    pub closed spec fn spec_persist(&self) -> bool {
        self.persist
    }

    /// A history bounded by `max_size`. With `persist`, it starts from
    /// `stored`, the entries read back from disk, cut to the bound; without,
    /// it starts empty (and the caller discards any stored file).
    pub fn new(max_size: usize, persist: bool, stored: Vec<HistoryEntry>) -> (r: History)
        ensures
            r.spec_max_size() == max_size,
            r.spec_persist() == persist,
            r@ == (if persist { at_most(entries_view(stored@), max_size as nat) } else { Seq::empty() }),
    {
        let mut kept = stored;
        if persist {
            kept.truncate(max_size);
        } else {
            kept = Vec::new();
        }
        let ghost target = entries_view(kept@);
        let mut entries: VecDeque<HistoryEntry> = VecDeque::new();
        while kept.len() > 0
            invariant
                target.len() == kept@.len() + entries@.len(),
                entries_view(kept@) == target.take(kept@.len() as int),
                entries_view(entries@) == target.skip(kept@.len() as int),
            decreases kept@.len(),
        {
            let ghost before_kept = kept@;
            let ghost before = entries@;
            let e = kept.pop().unwrap();
            let ghost k = kept@.len() as int;
            assert(e == before_kept[k]);
            assert(entries_view(before_kept)[k] == e@);
            assert(target.take(k + 1)[k] == target[k]);
            assert(e@ == target[k]);
            entries.push_front(e);
            assert(entries@ =~= seq![e] + before);
            assert(entries_view(entries@) =~= seq![e@] + entries_view(before));
            assert(kept@ =~= before_kept.drop_last());
            assert(entries_view(kept@) =~= target.take(kept@.len() as int));
            assert(entries_view(entries@) =~= target.skip(kept@.len() as int));
        }
        proof {
            assert(target.skip(0) =~= target);
            if persist {
                assert(target =~= at_most(entries_view(stored@), max_size as nat));
            } else {
                assert(target =~= Seq::<EntryView>::empty());
            }
        }
        History { entries, max_size, persist }
    }

    /// The bound on the number of entries.
    pub fn max_size(&self) -> (r: usize)
        ensures
            r == self.spec_max_size(),
    {
        self.max_size
    }

    /// Whether the caller writes the history to disk after each change.
    pub fn persist(&self) -> (r: bool)
        ensures
            r == self.spec_persist(),
    {
        self.persist
    }

    /// A copy of all entries, newest first.
    pub fn all_entries(&self) -> (r: Vec<HistoryEntry>)
        ensures
            entries_view(r@) == self@,
    {
        let mut out: Vec<HistoryEntry> = Vec::new();
        let n = self.entries.len();
        for i in 0..n
            invariant
                n == self.entries@.len(),
                entries_view(out@) =~= entries_view(self.entries@).take(i as int),
        {
            let e = self.entries[i].duplicate();
            let ghost before = out@;
            out.push(e);
            assert(out@ =~= before.push(e));
            assert(entries_view(out@) =~= entries_view(before).push(e@));
        }
        assert(entries_view(self.entries@).take(n as int) =~= entries_view(self.entries@));
        out
    }

    /// Push a new notification; evicts oldest entries beyond max_size.
    /// An older entry with the same id is replaced by the new one.
    pub fn push(&mut self, notif: &Notification)
        ensures
            final(self)@ == spec_push(old(self)@, entry_of(notif), old(self).spec_max_size()),
            final(self).spec_max_size() == old(self).spec_max_size(),
            final(self).spec_persist() == old(self).spec_persist(),
    {
        proof {
            use_type_invariant(&*self);
        }
        let id = notif.id;
        let ghost pred = |x: EntryView| x.id != id;
        let ghost old_view = entries_view(self.entries@);
        let mut fresh: VecDeque<HistoryEntry> = VecDeque::new();
        fresh.push_back(HistoryEntry::from_notification(notif));
        let n = self.entries.len();
        for i in 0..n
            invariant
                n == self.entries@.len(),
                old_view == entries_view(self.entries@),
                pred == (|x: EntryView| x.id != id),
                entries_view(fresh@) =~= seq![entry_of(notif)] + old_view.take(i as int).filter(pred),
        {
            reveal_with_fuel(Seq::<_>::filter, 1);
            assert(old_view.take(i + 1).drop_last() =~= old_view.take(i as int));
            if self.entries[i].id != id {
                let e = self.entries[i].duplicate();
                let ghost before = fresh@;
                fresh.push_back(e);
                assert(fresh@ =~= before.push(e));
                assert(entries_view(fresh@) =~= entries_view(before).push(e@));
                assert(seq![entry_of(notif)] + old_view.take(i + 1).filter(pred)
                    =~= (seq![entry_of(notif)] + old_view.take(i as int).filter(pred)).push(e@));
            }
        }
        assert(old_view.take(n as int) =~= old_view);
        fresh.truncate(self.max_size);
        proof {
            assert(entries_view(fresh@) =~= spec_push(old_view, entry_of(notif), self.max_size as nat));
        }
        self.entries = fresh;
    }

    /// All entries, newest first.
    pub fn entries(&self) -> (r: &VecDeque<HistoryEntry>)
        ensures
            entries_view(r@) == self@,
    {
        &self.entries
    }

    /// Number of entries; never more than the bound.
    pub fn len(&self) -> (r: usize)
        ensures
            r == self@.len(),
            r <= self.spec_max_size(),
    {
        proof {
            use_type_invariant(self);
        }
        self.entries.len()
    }

    /// Whether there is no entry.
    pub fn is_empty(&self) -> (r: bool)
        ensures
            r == (self@.len() == 0),
    {
        self.entries.len() == 0
    }

    /// Removes every entry.
    pub fn clear(&mut self)
        ensures
            final(self)@ == Seq::<EntryView>::empty(),
            final(self).spec_max_size() == old(self).spec_max_size(),
            final(self).spec_persist() == old(self).spec_persist(),
    {
        self.entries = VecDeque::new();
        assert(entries_view(self.entries@) =~= Seq::<EntryView>::empty());
    }

    /// Removes the entries of notification `id`; with no id, leaves the
    /// history as it is.
    pub fn remove(&mut self, id: Option<u32>)
        ensures
            final(self)@ == spec_remove(old(self)@, id),
            id matches Some(i) ==> forall|j: int|
                0 <= j < old(self)@.len() && old(self)@[j].id != i ==> #[trigger] final(self)@.contains(old(self)@[j]),
            id matches Some(i) ==> forall|x: EntryView|
                #[trigger] final(self)@.contains(x) ==> old(self)@.contains(x) && x.id != i,
            final(self).spec_max_size() == old(self).spec_max_size(),
            final(self).spec_persist() == old(self).spec_persist(),
    {
        proof {
            use_type_invariant(&*self);
        }
        match id {
            None => {},
            Some(id) => {
                proof {
                    lemma_remove_keeps_others(entries_view(self.entries@), id);
                }
                let ghost pred = |x: EntryView| x.id != id;
                let ghost old_view = entries_view(self.entries@);
                let mut kept: VecDeque<HistoryEntry> = VecDeque::new();
                let n = self.entries.len();
                for i in 0..n
                    invariant
                        n == self.entries@.len(),
                        old_view == entries_view(self.entries@),
                        pred == (|x: EntryView| x.id != id),
                        entries_view(kept@) =~= old_view.take(i as int).filter(pred),
                        kept@.len() <= i,
                {
                    reveal_with_fuel(Seq::<_>::filter, 1);
                    assert(old_view.take(i + 1).drop_last() =~= old_view.take(i as int));
                    if self.entries[i].id != id {
                        let e = self.entries[i].duplicate();
                        let ghost before = kept@;
                        kept.push_back(e);
                        assert(kept@ =~= before.push(e));
                        assert(entries_view(kept@) =~= entries_view(before).push(e@));
                    }
                }
                assert(old_view.take(n as int) =~= old_view);
                self.entries = kept;
            },
        }
    }
}

} // verus!
