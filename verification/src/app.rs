//! The notification manager: which notifications are on screen, in which
//! order, and what the screen, the timers, the history file and the bus
//! must do after each request.
//!
//! Each operation updates the list of cards on screen (newest first) and
//! returns the effects that the presentation layer carries out, in order.
use vstd::prelude::*;

use crate::config::{Anchor, AppearanceConfig, Config};
use crate::dbus::{DaemonEvent, DaemonSignal};
use crate::history::{entry_of, spec_push, spec_remove, EntryView, History};
use crate::icon::keys_view;
use crate::notification::{actions_view, reason_code, spec_effective_timeout, CloseReason, Notification};

verus! {

/// Something the presentation layer does on behalf of the manager.
#[derive(Debug)]
pub enum Effect {
    /// Take the card of `id` off the screen and cancel its expiry timer.
    RemoveCard { id: u32 },
    /// Put a card for this notification on top of the column.
    ShowCard(Notification),
    /// Put a card for `notif` where the card of `replaces` is, taking that
    /// card off the screen and cancelling its expiry timer.
    ReplaceCard { replaces: u32, notif: Notification },
    /// Close the card `id`, as expired, after `ms` milliseconds.
    ScheduleExpiry { id: u32, ms: u64 },
    /// Emit this signal on the bus.
    Signal(DaemonSignal),
    /// Show or hide the popup window.
    SetVisible(bool),
    /// Write the history to disk.
    SaveHistory,
}

// ── Model ─────────────────────────────────────────────────────────────────────

/// `s` without the first occurrence of `id` (unchanged if `id` is absent).
pub open spec fn without_first(s: Seq<u32>, id: u32) -> Seq<u32>
    decreases s.len(),
{
    if s.len() == 0 {
        s
    } else if s[0] == id {
        s.drop_first()
    } else {
        seq![s[0]] + without_first(s.drop_first(), id)
    }
}

/// The effect of taking card `id` off the screen, if it is there.
pub open spec fn removal(active: Seq<u32>, id: u32) -> Seq<Effect> {
    if active.contains(id) {
        seq![Effect::RemoveCard { id }]
    } else {
        Seq::empty()
    }
}

/// Closing `id` for `reason`: its card leaves (if shown), the bus learns of
/// the closing (even when no card was shown), and the window is shown
/// exactly when a card remains.
pub open spec fn close_step(active: Seq<u32>, id: u32, reason: CloseReason) -> (Seq<u32>, Seq<Effect>) {
    let next = without_first(active, id);
    (
        next,
        removal(active, id) + seq![
            Effect::Signal(DaemonSignal::NotificationClosed { id, reason: reason_code(reason) }),
            Effect::SetVisible(next.len() > 0),
        ],
    )
}

/// Closing, in order, each id of `ids` for `reason`.
pub open spec fn close_seq(active: Seq<u32>, ids: Seq<u32>, reason: CloseReason) -> (Seq<u32>, Seq<Effect>)
    decreases ids.len(),
{
    if ids.len() == 0 {
        (active, Seq::empty())
    } else {
        let step = close_step(active, ids[0], reason);
        let rest = close_seq(step.0, ids.drop_first(), reason);
        (rest.0, step.1 + rest.1)
    }
}

/// Making room for a new card: while `max` or more cards are shown, the
/// oldest one expires.
pub open spec fn evict(active: Seq<u32>, max: nat) -> (Seq<u32>, Seq<Effect>)
    decreases active.len(),
{
    if active.len() > 0 && active.len() >= max {
        let step = close_step(active, active.last(), CloseReason::Expired);
        proof {
            lemma_without_first_len(active, active.last());
        }
        let rest = evict(step.0, max);
        (rest.0, step.1 + rest.1)
    } else {
        (active, Seq::empty())
    }
}

/// The position of the first occurrence of `id` in `s`.
pub open spec fn first_index(s: Seq<u32>, id: u32) -> int
    decreases s.len(),
{
    if s.len() == 0 || s[0] == id {
        0
    } else {
        1 + first_index(s.drop_first(), id)
    }
}

/// Showing `n`. When it replaces a card on screen, its card takes that
/// card's place, without a closing signal for the old one. Otherwise old
/// cards expire, oldest first, until there is room under `max`, and its card
/// goes on top; with `max` 0 no card is shown at all and the window is
/// hidden. The history records it
/// either way, the card gets its expiry timer, and the window is shown when
/// a card is.
pub open spec fn spec_show(
    active: Seq<u32>,
    max: nat,
    n: Notification,
    timeout: Option<u64>,
    persist: bool,
) -> (Seq<u32>, Seq<Effect>) {
    let id = n.id;
    let save = save_if(persist);
    let expiry = match timeout {
        Some(ms) => seq![Effect::ScheduleExpiry { id, ms }],
        None => Seq::empty(),
    };
    if n.replaces_id != 0 && active.contains(n.replaces_id) {
        (
            active.update(first_index(active, n.replaces_id), id),
            save + seq![Effect::ReplaceCard { replaces: n.replaces_id, notif: n }] + expiry + seq![
                Effect::SetVisible(true),
            ],
        )
    } else if max == 0 {
        let room = evict(active, 0);
        (room.0, room.1 + save + seq![Effect::SetVisible(false)])
    } else {
        let room = evict(active, max);
        (seq![id] + room.0, room.1 + save + seq![Effect::ShowCard(n)] + expiry + seq![Effect::SetVisible(true)])
    }
}

/// Invoking action `key` of `id`: the bus learns of it, then the
/// notification is closed as dismissed by the user.
pub open spec fn spec_invoke(active: Seq<u32>, id: u32, key: String) -> (Seq<u32>, Seq<Effect>) {
    let step = close_step(active, id, CloseReason::DismissedByUser);
    (step.0, seq![Effect::Signal(DaemonSignal::ActionInvoked { id, action_key: key })] + step.1)
}

/// The effect of a history change: a write when the history is persisted.
pub open spec fn save_if(persist: bool) -> Seq<Effect> {
    if persist {
        seq![Effect::SaveHistory]
    } else {
        Seq::empty()
    }
}

/// The cards on screen and the effects after a request from the bus.
pub open spec fn spec_handle(active: Seq<u32>, config: Config, persist: bool, event: DaemonEvent) -> (Seq<u32>, Seq<Effect>) {
    match event {
        DaemonEvent::Show(n) => spec_show(
            active,
            config.general.max_visible as nat,
            n,
            spec_effective_timeout(n.expire_timeout, n.urgency, config.timeouts.low, config.timeouts.normal),
            persist,
        ),
        DaemonEvent::Close(id) => close_step(active, id, CloseReason::CloseNotificationCalled),
        DaemonEvent::CloseAll => close_seq(active, active, CloseReason::CloseNotificationCalled),
        DaemonEvent::InvokeAction { id, action_key } => spec_invoke(active, id, action_key),
        DaemonEvent::ClearHistory => (active, save_if(persist)),
        DaemonEvent::HistoryRemove { .. } => (active, save_if(persist)),
    }
}

/// The history after a request from the bus.
pub open spec fn spec_history_after(h: Seq<EntryView>, max: nat, event: DaemonEvent) -> Seq<EntryView> {
    match event {
        DaemonEvent::Show(n) => spec_push(h, entry_of(&n), max),
        DaemonEvent::ClearHistory => Seq::empty(),
        DaemonEvent::HistoryRemove { id } => spec_remove(h, id),
        _ => h,
    }
}

// ── Lemmas on the model ───────────────────────────────────────────────────────

/// Removing a present id removes exactly one element.
pub proof fn lemma_without_first_len(s: Seq<u32>, id: u32)
    ensures
        s.contains(id) ==> without_first(s, id).len() == s.len() - 1,
        !s.contains(id) ==> without_first(s, id) == s,
    decreases s.len(),
{
    if s.len() > 0 {
        lemma_without_first_len(s.drop_first(), id);
        if s[0] != id {
            assert(s.contains(id) ==> s.drop_first().contains(id)) by {
                if s.contains(id) {
                    let k = choose|k: int| 0 <= k < s.len() && s[k] == id;
                    assert(s.drop_first()[k - 1] == id);
                }
            }
            assert(s.drop_first().contains(id) ==> s.contains(id)) by {
                if s.drop_first().contains(id) {
                    let k = choose|k: int| 0 <= k < s.drop_first().len() && s.drop_first()[k] == id;
                    assert(s[k + 1] == id);
                }
            }
            if !s.contains(id) {
                assert(seq![s[0]] + s.drop_first() =~= s);
            }
        } else {
            assert(s[0] == id);
            assert(s.contains(id));
        }
    }
}

/// Removing the first occurrence is removing at the first index that holds it.
proof fn lemma_without_first_at(s: Seq<u32>, id: u32, p: int)
    requires
        0 <= p < s.len(),
        s[p] == id,
        forall|k: int| 0 <= k < p ==> s[k] != id,
    ensures
        without_first(s, id) == s.remove(p),
    decreases s.len(),
{
    if p == 0 {
        assert(s.drop_first() =~= s.remove(0));
    } else {
        lemma_without_first_at(s.drop_first(), id, p - 1);
        assert(seq![s[0]] + s.drop_first().remove(p - 1) =~= s.remove(p));
    }
}

/// Removing the first occurrence keeps the other elements.
proof fn lemma_without_first_subset(s: Seq<u32>, id: u32, x: u32)
    ensures
        without_first(s, id).contains(x) ==> s.contains(x),
    decreases s.len(),
{
    if s.len() > 0 {
        lemma_without_first_subset(s.drop_first(), id, x);
        if without_first(s, id).contains(x) {
            if s[0] == id {
                let k = choose|k: int| 0 <= k < s.drop_first().len() && s.drop_first()[k] == x;
                assert(s[k + 1] == x);
            } else {
                let w = without_first(s, id);
                let k = choose|k: int| 0 <= k < w.len() && w[k] == x;
                if k == 0 {
                    assert(s[0] == x);
                } else {
                    assert(without_first(s.drop_first(), id)[k - 1] == x);
                    let j = choose|j: int| 0 <= j < s.drop_first().len() && s.drop_first()[j] == x;
                    assert(s[j + 1] == x);
                }
            }
        }
    }
}

/// Eviction leaves fewer than `max` cards, or none.
proof fn lemma_evict_len(active: Seq<u32>, max: nat)
    ensures
        evict(active, max).0.len() < max || evict(active, max).0.len() == 0,
        evict(active, max).0.len() <= active.len(),
    decreases active.len(),
{
    if active.len() > 0 && active.len() >= max {
        lemma_without_first_len(active, active.last());
        assert(active.contains(active.last()));
        let step = close_step(active, active.last(), CloseReason::Expired);
        lemma_evict_len(step.0, max);
    }
}

/// Removing the first occurrence from a list without repeats leaves a list
/// without repeats that no longer holds the id.
proof fn lemma_without_first_unique(s: Seq<u32>, id: u32)
    requires
        s.no_duplicates(),
    ensures
        without_first(s, id).no_duplicates(),
        !without_first(s, id).contains(id),
    decreases s.len(),
{
    if s.len() > 0 {
        let rest = s.drop_first();
        assert(rest.no_duplicates()) by {
            assert forall|i: int, j: int| 0 <= i < rest.len() && 0 <= j < rest.len() && i != j implies rest[i] != rest[j] by {
                assert(rest[i] == s[i + 1] && rest[j] == s[j + 1]);
            }
        }
        lemma_without_first_unique(rest, id);
        if s[0] == id {
            if rest.contains(id) {
                let k = choose|k: int| 0 <= k < rest.len() && rest[k] == id;
                assert(s[k + 1] == s[0]);
            }
        } else {
            let w = without_first(rest, id);
            if w.contains(s[0]) {
                lemma_without_first_subset(rest, id, s[0]);
                let k = choose|k: int| 0 <= k < rest.len() && rest[k] == s[0];
                assert(s[k + 1] == s[0]);
            }
            let r = seq![s[0]] + w;
            assert forall|i: int, j: int| 0 <= i < r.len() && 0 <= j < r.len() && i != j implies r[i] != r[j] by {
                if i == 0 && j > 0 {
                    assert(r[j] == w[j - 1]);
                    assert(w.contains(w[j - 1]));
                } else if j == 0 && i > 0 {
                    assert(r[i] == w[i - 1]);
                    assert(w.contains(w[i - 1]));
                } else if i > 0 && j > 0 {
                    assert(r[i] == w[i - 1] && r[j] == w[j - 1]);
                }
            }
            if r.contains(id) {
                let k = choose|k: int| 0 <= k < r.len() && r[k] == id;
                if k > 0 {
                    assert(w[k - 1] == id);
                }
            }
        }
    }
}

/// Eviction keeps a subset of the cards and keeps them without repeats.
proof fn lemma_evict_subset(active: Seq<u32>, max: nat, x: u32)
    ensures
        evict(active, max).0.contains(x) ==> active.contains(x),
        active.no_duplicates() ==> evict(active, max).0.no_duplicates(),
    decreases active.len(),
{
    if active.len() > 0 && active.len() >= max {
        let id = active.last();
        lemma_without_first_len(active, id);
        assert(active.contains(id));
        let next = without_first(active, id);
        lemma_evict_subset(next, max, x);
        lemma_without_first_subset(active, id, x);
        if active.no_duplicates() {
            lemma_without_first_unique(active, id);
        }
    }
}

/// Closing, in order, every card on screen leaves none.
proof fn lemma_close_seq_self(active: Seq<u32>, reason: CloseReason)
    ensures
        close_seq(active, active, reason).0 == Seq::<u32>::empty(),
        active.len() > 0 ==> close_seq(active, active, reason).1.len() > 0
            && close_seq(active, active, reason).1.last() == Effect::SetVisible(false),
    decreases active.len(),
{
    if active.len() > 0 {
        let rest = active.drop_first();
        assert(without_first(active, active[0]) == rest);
        lemma_close_seq_self(rest, reason);
    }
}

// ── Laws ──────────────────────────────────────────────────────────────────────

/// The first occurrence found by scanning is the first index.
proof fn lemma_first_index(s: Seq<u32>, id: u32, p: int)
    requires
        0 <= p < s.len(),
        s[p] == id,
        forall|k: int| 0 <= k < p ==> s[k] != id,
    ensures
        first_index(s, id) == p,
        s.contains(id),
    decreases p,
{
    if p > 0 {
        lemma_first_index(s.drop_first(), id, p - 1);
    }
}

/// Every id present has a first index, which holds it.
proof fn lemma_first_index_holds(s: Seq<u32>, id: u32)
    requires
        s.contains(id),
    ensures
        0 <= first_index(s, id) < s.len(),
        s[first_index(s, id)] == id,
        forall|k: int| 0 <= k < first_index(s, id) ==> s[k] != id,
    decreases s.len(),
{
    if s[0] != id {
        let k = choose|k: int| 0 <= k < s.len() && s[k] == id;
        assert(s.drop_first()[k - 1] == id);
        lemma_first_index_holds(s.drop_first(), id);
        assert forall|k: int| 0 <= k < first_index(s, id) implies s[k] != id by {
            if k > 0 {
                assert(s[k] == s.drop_first()[k - 1]);
            }
        }
    }
}

/// Showing a notification never leaves more than `max_visible` cards on
/// screen, given that there were not more before. A card that is shown
/// went on top, or took the place of the card it replaces.
pub proof fn lemma_show_bounded(active: Seq<u32>, max: nat, n: Notification, timeout: Option<u64>, persist: bool)
    requires
        active.len() <= max,
    ensures
        spec_show(active, max, n, timeout, persist).0.len() <= max,
        max > 0 ==> spec_show(active, max, n, timeout, persist).0.contains(n.id),
        max > 0 && !(n.replaces_id != 0 && active.contains(n.replaces_id))
            ==> spec_show(active, max, n, timeout, persist).0[0] == n.id,
{
    lemma_evict_len(active, max);
    if n.replaces_id != 0 && active.contains(n.replaces_id) {
        lemma_first_index_holds(active, n.replaces_id);
        let r = spec_show(active, max, n, timeout, persist).0;
        assert(r[first_index(active, n.replaces_id)] == n.id);
    } else if max > 0 {
        let r = spec_show(active, max, n, timeout, persist).0;
        assert(r[0] == n.id);
    }
}

/// Closing all notifications leaves no card on screen and, when there was
/// one, ends by hiding the window.
pub proof fn lemma_close_all_empties(active: Seq<u32>)
    ensures
        close_seq(active, active, CloseReason::CloseNotificationCalled).0 == Seq::<u32>::empty(),
        active.len() > 0 ==> close_seq(active, active, CloseReason::CloseNotificationCalled).1.last()
            == Effect::SetVisible(false),
{
    lemma_close_seq_self(active, CloseReason::CloseNotificationCalled);
}

/// Closing a notification, or invoking one of its actions, ends by showing
/// the window exactly when cards remain.
pub proof fn lemma_close_visibility(active: Seq<u32>, id: u32, reason: CloseReason, key: String)
    ensures
        close_step(active, id, reason).1.last() == Effect::SetVisible(close_step(active, id, reason).0.len() > 0),
        spec_invoke(active, id, key).1.last()
            == Effect::SetVisible(spec_invoke(active, id, key).0.len() > 0),
{
}

/// Replacing a notification that is on screen updates its card in place:
/// the new card sits exactly where the old one was, every other card keeps
/// its place, the number of cards is unchanged, and no closing signal is
/// sent. When it replaces its own id (as the bus hands out ids) and no id
/// was shown twice before, the id is shown exactly once, at that place.
pub proof fn lemma_replace_in_place(active: Seq<u32>, max: nat, n: Notification, timeout: Option<u64>, persist: bool)
    requires
        n.replaces_id != 0,
        active.contains(n.replaces_id),
    ensures
        ({
            let r = spec_show(active, max, n, timeout, persist);
            let k = first_index(active, n.replaces_id);
            &&& 0 <= k < active.len()
            &&& active[k] == n.replaces_id
            &&& r.0.len() == active.len()
            &&& r.0[k] == n.id
            &&& forall|j: int| 0 <= j < active.len() && j != k ==> r.0[j] == active[j]
            &&& forall|j: int| 0 <= j < r.1.len() ==> !(#[trigger] r.1[j] is Signal)
            &&& (active.no_duplicates() && n.id == n.replaces_id) ==> r.0.no_duplicates()
        }),
{
    lemma_first_index_holds(active, n.replaces_id);
    let r = spec_show(active, max, n, timeout, persist);
    assert forall|j: int| 0 <= j < r.1.len() implies !(#[trigger] r.1[j] is Signal) by {
        if persist {
            assert(r.1[0] == Effect::SaveHistory);
        }
    }
    if active.no_duplicates() && n.id == n.replaces_id {
        assert(r.0 =~= active);
    }
}

/// Making room drops the oldest cards: when no card is shown twice and the
/// bound is positive, the cards that stay are the newest `max - 1`, in order
/// (all of them when there are fewer).
pub proof fn lemma_evict_oldest(active: Seq<u32>, max: nat)
    requires
        active.no_duplicates(),
        max > 0,
    ensures
        evict(active, max).0 == (if active.len() >= max {
            active.take(max - 1)
        } else {
            active
        }),
    decreases active.len(),
{
    if active.len() >= max {
        let p = active.len() - 1;
        let last = active.last();
        lemma_without_first_at(active, last, p);
        assert(active.remove(p) =~= active.drop_last());
        let rest = active.drop_last();
        assert(rest.no_duplicates()) by {
            assert forall|i: int, j: int| 0 <= i < rest.len() && 0 <= j < rest.len() && i != j implies rest[i] != rest[j] by {
                assert(rest[i] == active[i] && rest[j] == active[j]);
            }
        }
        lemma_evict_oldest(rest, max);
        if rest.len() >= max {
            assert(rest.take(max - 1) =~= active.take(max - 1));
        } else {
            assert(rest =~= active.take(max - 1));
        }
    }
}

/// A notification that replaces no card on screen goes on top, above the
/// newest `max - 1` cards that were shown, in their order (when no card was
/// shown twice and the bound is positive).
pub proof fn lemma_show_on_top(active: Seq<u32>, max: nat, n: Notification, timeout: Option<u64>, persist: bool)
    requires
        active.no_duplicates(),
        max > 0,
        !(n.replaces_id != 0 && active.contains(n.replaces_id)),
    ensures
        spec_show(active, max, n, timeout, persist).0 == seq![n.id] + (if active.len() >= max {
            active.take(max - 1)
        } else {
            active
        }),
{
    lemma_evict_oldest(active, max);
}

/// Closing a notification takes its card off the screen and nothing else:
/// one card fewer when it was shown (none otherwise), every other card stays,
/// and the bus is told that it closed, with the reason's code.
pub proof fn lemma_close_removes(active: Seq<u32>, id: u32, reason: CloseReason)
    ensures
        close_step(active, id, reason).0.len() == (if active.contains(id) {
            active.len() - 1
        } else {
            active.len() as int
        }),
        forall|x: u32| x != id ==> (#[trigger] close_step(active, id, reason).0.contains(x) <==> active.contains(x)),
        active.no_duplicates() ==> !close_step(active, id, reason).0.contains(id),
        close_step(active, id, reason).1.contains(
            Effect::Signal(DaemonSignal::NotificationClosed { id, reason: reason_code(reason) }),
        ),
{
    lemma_without_first_len(active, id);
    let r = close_step(active, id, reason);
    assert forall|x: u32| x != id implies (#[trigger] r.0.contains(x) <==> active.contains(x)) by {
        lemma_without_first_subset(active, id, x);
        if active.contains(x) {
            lemma_without_first_keeps(active, id, x);
        }
    }
    if active.no_duplicates() {
        lemma_without_first_unique(active, id);
    }
    let sig = Effect::Signal(DaemonSignal::NotificationClosed { id, reason: reason_code(reason) });
    assert(r.1[removal(active, id).len() as int] == sig);
}

/// Removing the first occurrence of one id keeps every other id.
proof fn lemma_without_first_keeps(s: Seq<u32>, id: u32, x: u32)
    requires
        x != id,
        s.contains(x),
    ensures
        without_first(s, id).contains(x),
    decreases s.len(),
{
    if s[0] == x {
        assert(without_first(s, id)[0] == x);
    } else {
        let k = choose|k: int| 0 <= k < s.len() && s[k] == x;
        assert(s.drop_first()[k - 1] == x);
        if s[0] == id {
            assert(without_first(s, id) == s.drop_first());
        } else {
            lemma_without_first_keeps(s.drop_first(), id, x);
            let w = without_first(s.drop_first(), id);
            let j = choose|j: int| 0 <= j < w.len() && w[j] == x;
            assert(without_first(s, id)[j + 1] == x);
        }
    }
}

/// Closing never adds a card.
proof fn lemma_close_seq_len(active: Seq<u32>, ids: Seq<u32>, reason: CloseReason)
    ensures
        close_seq(active, ids, reason).0.len() <= active.len(),
    decreases ids.len(),
{
    if ids.len() > 0 {
        lemma_without_first_len(active, ids[0]);
        lemma_close_seq_len(without_first(active, ids[0]), ids.drop_first(), reason);
    }
}

/// No request puts more than `max_visible` cards on screen. (A manager
/// starts with none, so it never shows more.)
pub proof fn lemma_cards_bounded(active: Seq<u32>, config: Config, persist: bool, event: DaemonEvent)
    requires
        active.len() <= config.general.max_visible,
    ensures
        spec_handle(active, config, persist, event).0.len() <= config.general.max_visible,
{
    match event {
        DaemonEvent::Show(n) => {
            let t = spec_effective_timeout(n.expire_timeout, n.urgency, config.timeouts.low, config.timeouts.normal);
            lemma_show_bounded(active, config.general.max_visible as nat, n, t, persist);
        },
        DaemonEvent::Close(id) => {
            lemma_without_first_len(active, id);
        },
        DaemonEvent::CloseAll => {
            lemma_close_seq_len(active, active, CloseReason::CloseNotificationCalled);
        },
        DaemonEvent::InvokeAction { id, .. } => {
            lemma_without_first_len(active, id);
        },
        _ => {},
    }
}

/// The window follows the cards: after any request, either the cards on
/// screen are unchanged, or the last effect shows the window exactly when a
/// card remains. (The window starts hidden with no card, so it is shown
/// exactly while a card is on screen.)
pub proof fn lemma_window_follows_cards(active: Seq<u32>, config: Config, persist: bool, event: DaemonEvent)
    ensures
        ({
            let r = spec_handle(active, config, persist, event);
            r.0 == active || (r.1.len() > 0 && r.1.last() == Effect::SetVisible(r.0.len() > 0))
        }),
{
    match event {
        DaemonEvent::Show(n) => {
            let max = config.general.max_visible as nat;
            let t = spec_effective_timeout(n.expire_timeout, n.urgency, config.timeouts.low, config.timeouts.normal);
            let r = spec_show(active, max, n, t, persist);
            if n.replaces_id != 0 && active.contains(n.replaces_id) {
                lemma_first_index_holds(active, n.replaces_id);
                assert(r.0.len() > 0);
                assert(r.1.last() == Effect::SetVisible(true));
            } else if max == 0 {
                lemma_evict_len(active, 0);
                assert(r.1.last() == Effect::SetVisible(false));
            } else {
                assert(r.0.len() > 0);
                assert(r.1.last() == Effect::SetVisible(true));
            }
        },
        DaemonEvent::CloseAll => {
            lemma_close_seq_self(active, CloseReason::CloseNotificationCalled);
            if active.len() == 0 {
                assert(close_seq(active, active, CloseReason::CloseNotificationCalled).0 =~= active);
            }
        },
        _ => {},
    }
}

// ── Manager ───────────────────────────────────────────────────────────────────

/// Tracks the cards on screen, newest first, by notification id.
pub struct NotificationManager {
    config: Config,
    active: Vec<u32>,
}

impl NotificationManager {
    /// The ids of the cards on screen, newest first.
    pub closed spec fn spec_active(&self) -> Seq<u32> {
        self.active@
    }

    /// The settings the manager was made with.
    pub closed spec fn spec_config(&self) -> Config {
        self.config
    }

    /// A manager with no card on screen.
    pub fn new(config: Config) -> (r: NotificationManager)
        ensures
            r.spec_active() == Seq::<u32>::empty(),
            r.spec_config() == config,
    {
        NotificationManager { config, active: Vec::new() }
    }

    /// The ids of the cards on screen, newest first.
    pub fn active_ids(&self) -> (r: &Vec<u32>)
        ensures
            r@ == self.spec_active(),
    {
        &self.active
    }

    /// The settings in use.
    pub fn config(&self) -> (r: &Config)
        ensures
            *r == self.spec_config(),
    {
        &self.config
    }

    /// Takes the card `id` off the screen, appending its removal to `effects`.
    fn remove_widget(&mut self, id: u32, effects: &mut Vec<Effect>)
        ensures
            final(self).active@ == without_first(old(self).active@, id),
            final(effects)@ == old(effects)@ + removal(old(self).active@, id),
            final(self).config == old(self).config,
    {
        let n = self.active.len();
        let mut pos: usize = 0;
        while pos < n && self.active[pos] != id
            invariant
                n == self.active@.len(),
                pos <= n,
                forall|k: int| 0 <= k < pos ==> self.active@[k] != id,
            decreases n - pos,
        {
            pos = pos + 1;
        }
        if pos < n {
            proof {
                lemma_without_first_at(self.active@, id, pos as int);
                assert(self.active@.contains(id));
            }
            self.active.remove(pos);
            let ghost before = effects@;
            effects.push(Effect::RemoveCard { id });
            assert(effects@ =~= before + seq![Effect::RemoveCard { id }]);
        } else {
            proof {
                assert(!self.active@.contains(id));
                lemma_without_first_len(self.active@, id);
            }
            assert(effects@ =~= effects@ + Seq::<Effect>::empty());
        }
    }

    /// Closes `id`, appending the effects to `effects`.
    fn close_into(&mut self, id: u32, reason: CloseReason, effects: &mut Vec<Effect>)
        ensures
            final(self).active@ == close_step(old(self).active@, id, reason).0,
            final(effects)@ == old(effects)@ + close_step(old(self).active@, id, reason).1,
            final(self).config == old(self).config,
    {
        let ghost before = effects@;
        let ghost start = self.active@;
        self.remove_widget(id, effects);
        effects.push(Effect::Signal(DaemonSignal::NotificationClosed { id, reason: reason.code() }));
        let visible = !self.active.is_empty();
        effects.push(Effect::SetVisible(visible));
        assert(effects@ =~= before + close_step(start, id, reason).1);
    }

    /// Closes notification `id` for `reason`. The bus is told even when no
    /// card of that id is on screen.
    pub fn close(&mut self, id: u32, reason: CloseReason) -> (effects: Vec<Effect>)
        ensures
            (final(self).spec_active(), effects@) == close_step(old(self).spec_active(), id, reason),
            final(self).spec_config() == old(self).spec_config(),
    {
        let mut effects: Vec<Effect> = Vec::new();
        self.close_into(id, reason, &mut effects);
        assert(effects@ =~= close_step(old(self).active@, id, reason).1);
        effects
    }

    /// Closes every card on screen, newest first, as closed by request.
    pub fn close_all(&mut self) -> (effects: Vec<Effect>)
        ensures
            (final(self).spec_active(), effects@) == close_seq(
                old(self).spec_active(),
                old(self).spec_active(),
                CloseReason::CloseNotificationCalled,
            ),
            final(self).spec_config() == old(self).spec_config(),
    {
        let ghost start = self.active@;
        let ghost target = close_seq(start, start, CloseReason::CloseNotificationCalled);
        let n = self.active.len();
        let mut ids: Vec<u32> = Vec::new();
        for i in 0..n
            invariant
                n == self.active@.len(),
                ids@ =~= self.active@.take(i as int),
        {
            ids.push(self.active[i]);
        }
        assert(ids@ =~= start);
        let mut effects: Vec<Effect> = Vec::new();
        let mut i: usize = 0;
        while i < n
            invariant
                n == ids@.len(),
                ids@ == start,
                i <= n,
                target == close_seq(start, start, CloseReason::CloseNotificationCalled),
                self.config == old(self).config,
                close_seq(self.active@, ids@.skip(i as int), CloseReason::CloseNotificationCalled).0 == target.0,
                effects@ + close_seq(self.active@, ids@.skip(i as int), CloseReason::CloseNotificationCalled).1
                    == target.1,
            decreases n - i,
        {
            let ghost cur = self.active@;
            let ghost before = effects@;
            let id = ids[i];
            assert(ids@.skip(i as int).drop_first() =~= ids@.skip(i + 1));
            self.close_into(id, CloseReason::CloseNotificationCalled, &mut effects);
            assert(before + close_step(cur, id, CloseReason::CloseNotificationCalled).1
                + close_seq(self.active@, ids@.skip(i + 1), CloseReason::CloseNotificationCalled).1
                =~= before + (close_step(cur, id, CloseReason::CloseNotificationCalled).1
                + close_seq(self.active@, ids@.skip(i + 1), CloseReason::CloseNotificationCalled).1));
            i = i + 1;
        }
        assert(ids@.skip(n as int) =~= Seq::<u32>::empty());
        assert(effects@ =~= effects@ + Seq::<Effect>::empty());
        effects
    }

    /// The user chose action `action_key` of `id`: the bus is told, then the
    /// notification is closed as dismissed by the user.
    pub fn invoke_action(&mut self, id: u32, action_key: String) -> (effects: Vec<Effect>)
        ensures
            (final(self).spec_active(), effects@) == spec_invoke(old(self).spec_active(), id, action_key),
            final(self).spec_config() == old(self).spec_config(),
    {
        let mut effects: Vec<Effect> = Vec::new();
        effects.push(Effect::Signal(DaemonSignal::ActionInvoked { id, action_key }));
        self.close_into(id, CloseReason::DismissedByUser, &mut effects);
        assert(effects@ =~= spec_invoke(old(self).active@, id, action_key).1);
        effects
    }

    /// Shows `notif`, recording it in `history`.
    pub fn show(&mut self, history: &mut History, notif: Notification) -> (effects: Vec<Effect>)
        ensures
            (final(self).spec_active(), effects@) == spec_show(
                old(self).spec_active(),
                old(self).spec_config().general.max_visible as nat,
                notif,
                spec_effective_timeout(
                    notif.expire_timeout,
                    notif.urgency,
                    old(self).spec_config().timeouts.low,
                    old(self).spec_config().timeouts.normal,
                ),
                old(history).spec_persist(),
            ),
            final(self).spec_config() == old(self).spec_config(),
            final(history)@ == spec_push(old(history)@, entry_of(&notif), old(history).spec_max_size()),
            final(history).spec_max_size() == old(history).spec_max_size(),
            final(history).spec_persist() == old(history).spec_persist(),
    {
        let ghost start = self.active@;
        let max = self.config.general.max_visible;
        let id = notif.id;
        let timeout_ms = notif.effective_timeout_ms(&self.config.timeouts);
        let ghost shown = notif;
        let ghost target = spec_show(start, max as nat, shown, timeout_ms, history.spec_persist());
        let mut effects: Vec<Effect> = Vec::new();

        // Replace: the new card takes the place of the card it replaces.
        let rid = notif.replaces_id;
        if rid != 0 {
            let n = self.active.len();
            let mut pos: usize = 0;
            while pos < n && self.active[pos] != rid
                invariant
                    n == self.active@.len(),
                    pos <= n,
                    forall|k: int| 0 <= k < pos ==> self.active@[k] != rid,
                decreases n - pos,
            {
                pos = pos + 1;
            }
            if pos < n {
                proof {
                    lemma_first_index(self.active@, rid, pos as int);
                }
                history.push(&notif);
                if history.persist() {
                    effects.push(Effect::SaveHistory);
                }
                self.active[pos] = id;
                effects.push(Effect::ReplaceCard { replaces: rid, notif });
                match timeout_ms {
                    Some(ms) => effects.push(Effect::ScheduleExpiry { id, ms }),
                    None => {},
                }
                effects.push(Effect::SetVisible(true));
                proof {
                    assert(self.active@ =~= target.0);
                    assert(effects@ =~= target.1);
                }
                return effects;
            }
            proof {
                assert(!start.contains(rid));
            }
        }

        // Enforce max_visible: evict the oldest notification.
        let ghost room = evict(start, max as nat);
        while self.active.len() > 0 && self.active.len() >= max
            invariant
                max == self.config.general.max_visible,
                self.config == old(self).config,
                room == evict(start, max as nat),
                evict(self.active@, max as nat).0 == room.0,
                effects@ + evict(self.active@, max as nat).1 == room.1,
            decreases self.active@.len(),
        {
            let ghost cur = self.active@;
            let ghost before = effects@;
            let oldest = self.active[self.active.len() - 1];
            proof {
                lemma_without_first_len(cur, oldest);
                assert(cur.contains(oldest));
            }
            self.close_into(oldest, CloseReason::Expired, &mut effects);
            assert(before + close_step(cur, oldest, CloseReason::Expired).1 + evict(self.active@, max as nat).1
                =~= before + (close_step(cur, oldest, CloseReason::Expired).1 + evict(self.active@, max as nat).1));
        }
        assert(effects@ =~= room.1);

        history.push(&notif);
        if history.persist() {
            effects.push(Effect::SaveHistory);
        }

        if max == 0 {
            // No card may be shown.
            effects.push(Effect::SetVisible(false));
            proof {
                assert(self.active@ =~= target.0);
                assert(effects@ =~= target.1);
            }
            return effects;
        }

        effects.push(Effect::ShowCard(notif));
        match timeout_ms {
            Some(ms) => effects.push(Effect::ScheduleExpiry { id, ms }),
            None => {},
        }
        self.active.insert(0, id);
        effects.push(Effect::SetVisible(true));
        proof {
            assert(self.active@ =~= target.0);
            assert(effects@ =~= target.1);
        }
        effects
    }

    /// Carries out a request that came over the bus.
    pub fn handle_event(&mut self, history: &mut History, event: DaemonEvent) -> (effects: Vec<Effect>)
        ensures
            final(self).spec_config() == old(self).spec_config(),
            final(history).spec_max_size() == old(history).spec_max_size(),
            final(history).spec_persist() == old(history).spec_persist(),
            (final(self).spec_active(), effects@) == spec_handle(
                old(self).spec_active(),
                old(self).spec_config(),
                old(history).spec_persist(),
                event,
            ),
            final(history)@ == spec_history_after(old(history)@, old(history).spec_max_size(), event),
    {
        match event {
            DaemonEvent::Show(notif) => self.show(history, notif),
            DaemonEvent::Close(id) => self.close(id, CloseReason::CloseNotificationCalled),
            DaemonEvent::CloseAll => self.close_all(),
            DaemonEvent::InvokeAction { id, action_key } => self.invoke_action(id, action_key),
            DaemonEvent::ClearHistory => {
                history.clear();
                let mut effects: Vec<Effect> = Vec::new();
                if history.persist() {
                    effects.push(Effect::SaveHistory);
                }
                assert(effects@ =~= save_if(old(history).spec_persist()));
                effects
            },
            DaemonEvent::HistoryRemove { id } => {
                history.remove(id);
                let mut effects: Vec<Effect> = Vec::new();
                if history.persist() {
                    effects.push(Effect::SaveHistory);
                }
                assert(effects@ =~= save_if(old(history).spec_persist()));
                effects
            },
        }
    }
}

// ── Popup window and cards ────────────────────────────────────────────────────

/// The screen edges the popup window is attached to, with their margins.
#[derive(Debug, Clone, Copy, PartialEq, Eq, Structural)]
pub struct EdgeLayout {
    pub top: bool,
    pub bottom: bool,
    pub left: bool,
    pub right: bool,
    pub margin_top: i32,
    pub margin_bottom: i32,
    pub margin_left: i32,
    pub margin_right: i32,
}

/// The edges for an anchor: a top or bottom edge, plus the left or right
/// edge for a corner; each attached edge gets the margin, the others none.
pub open spec fn spec_anchor_layout(anchor: Anchor, margin: i32) -> EdgeLayout {
    let top = anchor == Anchor::TopRight || anchor == Anchor::TopLeft || anchor == Anchor::TopCenter;
    let left = anchor == Anchor::TopLeft || anchor == Anchor::BottomLeft;
    let right = anchor == Anchor::TopRight || anchor == Anchor::BottomRight;
    EdgeLayout {
        top,
        bottom: !top,
        left,
        right,
        margin_top: if top { margin } else { 0 },
        margin_bottom: if !top { margin } else { 0 },
        margin_left: if left { margin } else { 0 },
        margin_right: if right { margin } else { 0 },
    }
}

/// The popup window is attached to exactly one of the top and bottom edges,
/// to the top for a top anchor, to the left or right edge for a corner on
/// that side; every attached edge keeps the configured margin from the screen
/// edge, and every other edge has none.
pub proof fn lemma_anchor_margins(anchor: Anchor, margin: i32)
    ensures
        spec_anchor_layout(anchor, margin).top != spec_anchor_layout(anchor, margin).bottom,
        spec_anchor_layout(anchor, margin).top
            <==> (anchor == Anchor::TopLeft || anchor == Anchor::TopCenter || anchor == Anchor::TopRight),
        spec_anchor_layout(anchor, margin).left
            <==> (anchor == Anchor::TopLeft || anchor == Anchor::BottomLeft),
        spec_anchor_layout(anchor, margin).right
            <==> (anchor == Anchor::TopRight || anchor == Anchor::BottomRight),
        spec_anchor_layout(anchor, margin).margin_top
            == (if spec_anchor_layout(anchor, margin).top { margin } else { 0 }),
        spec_anchor_layout(anchor, margin).margin_bottom
            == (if spec_anchor_layout(anchor, margin).bottom { margin } else { 0 }),
        spec_anchor_layout(anchor, margin).margin_left
            == (if spec_anchor_layout(anchor, margin).left { margin } else { 0 }),
        spec_anchor_layout(anchor, margin).margin_right
            == (if spec_anchor_layout(anchor, margin).right { margin } else { 0 }),
{
}

/// How the popup window is attached to the screen for `anchor`.
pub fn anchor_layout(anchor: Anchor, margin: i32) -> (r: EdgeLayout)
    ensures
        r == spec_anchor_layout(anchor, margin),
        r.margin_top == (if r.top { margin } else { 0 }),
        r.margin_bottom == (if r.bottom { margin } else { 0 }),
        r.margin_left == (if r.left { margin } else { 0 }),
        r.margin_right == (if r.right { margin } else { 0 }),
{
    let mut l = EdgeLayout {
        top: false,
        bottom: false,
        left: false,
        right: false,
        margin_top: 0,
        margin_bottom: 0,
        margin_left: 0,
        margin_right: 0,
    };
    match anchor {
        Anchor::TopRight => {
            l.top = true;
            l.right = true;
            l.margin_top = margin;
            l.margin_right = margin;
        },
        Anchor::TopLeft => {
            l.top = true;
            l.left = true;
            l.margin_top = margin;
            l.margin_left = margin;
        },
        Anchor::TopCenter => {
            l.top = true;
            l.margin_top = margin;
        },
        Anchor::BottomRight => {
            l.bottom = true;
            l.right = true;
            l.margin_bottom = margin;
            l.margin_right = margin;
        },
        Anchor::BottomLeft => {
            l.bottom = true;
            l.left = true;
            l.margin_bottom = margin;
            l.margin_left = margin;
        },
        Anchor::BottomCenter => {
            l.bottom = true;
            l.margin_bottom = margin;
        },
    }
    l
}

/// What a click on the card body does.
#[derive(Debug, Clone, Copy, PartialEq, Eq, Structural)]
pub enum CardClick {
    /// Invoke the notification's `default` action.
    InvokeDefault,
    /// Close the notification as dismissed by the user.
    Dismiss,
}

/// The parts of a notification card.
#[derive(Debug)]
pub struct CardLayout {
    /// The width the card asks for (pixels).
    pub width_request: i32,
    /// The width the card never exceeds (pixels), when one is set.
    pub max_width: Option<i32>,
    /// An icon column is shown.
    pub show_icon: bool,
    /// The application name is shown.
    pub show_app_name: bool,
    /// The summary line is shown.
    pub show_summary: bool,
    /// The body text is shown.
    pub show_body: bool,
    /// A row of action buttons is shown (possibly empty).
    pub action_row: bool,
    /// The (key, label) of each action button, in order.
    pub buttons: Vec<(String, String)>,
    /// What a click on the card does.
    pub click: CardClick,
}

/// Actions other than the `default` one, which a click on the card triggers.
pub open spec fn button_actions(actions: Seq<(Seq<char>, Seq<char>)>) -> Seq<(Seq<char>, Seq<char>)> {
    actions.filter(|p: (Seq<char>, Seq<char>)| p.0 != "default"@)
}

/// The notification has a `default` action.
pub open spec fn has_default_action(actions: Seq<(Seq<char>, Seq<char>)>) -> bool {
    exists|i: int| 0 <= i < actions.len() && (#[trigger] actions[i]).0 == "default"@
}

/// The card is laid out from the notification and the appearance settings:
/// it asks for the minimum width, but is never wider than the maximum width
/// when one is set (a positive value), which therefore wins over a larger
/// minimum; an icon when the notification names one, has an `image-path` hint, or a
/// hint yielded an icon; the application name when enabled, not empty and
/// not `notify-send`; summary and body when not empty; the action row when
/// enabled and there are actions, with a button for each non-default action.
pub open spec fn lays_out(
    r: CardLayout,
    n: Notification,
    a: AppearanceConfig,
    keys: Seq<Seq<char>>,
    hint_icon_found: bool,
) -> bool {
    let actions = actions_view(n.actions@);
    &&& r.max_width == (if a.max_width > 0 {
        Some(a.max_width)
    } else {
        None
    })
    &&& r.width_request == (if a.max_width > 0 && a.min_width > a.max_width {
        a.max_width
    } else {
        a.min_width
    })
    &&& r.show_icon == (n.app_icon@.len() > 0 || keys.contains("image-path"@) || hint_icon_found)
    &&& r.show_app_name == (a.show_app_name && n.app_name@.len() > 0 && n.app_name@ != "notify-send"@)
    &&& r.show_summary == (n.summary@.len() > 0)
    &&& r.show_body == (n.body@.len() > 0)
    &&& r.action_row == (a.show_actions && actions.len() > 0)
    &&& actions_view(r.buttons@) == (if r.action_row {
        button_actions(actions)
    } else {
        Seq::empty()
    })
    &&& r.click == (if has_default_action(actions) {
        CardClick::InvokeDefault
    } else {
        CardClick::Dismiss
    })
}

/// A card never asks for more than the maximum width.
pub proof fn lemma_card_width_bounded(r: CardLayout, n: Notification, a: AppearanceConfig, keys: Seq<Seq<char>>, found: bool)
    requires
        lays_out(r, n, a, keys, found),
    ensures
        r.max_width matches Some(w) ==> r.width_request <= w && w == a.max_width,
        r.max_width is None ==> r.width_request == a.min_width,
{
}

/// A card shows an icon exactly when the notification names an application
/// icon, carries an `image-path` hint, or a hint yielded an icon; in
/// particular a notification with an application icon always shows it.
pub proof fn lemma_card_icon(r: CardLayout, n: Notification, a: AppearanceConfig, keys: Seq<Seq<char>>, found: bool)
    requires
        lays_out(r, n, a, keys, found),
    ensures
        n.app_icon@.len() > 0 ==> r.show_icon,
        keys.contains("image-path"@) ==> r.show_icon,
        found ==> r.show_icon,
        r.show_icon ==> (n.app_icon@.len() > 0 || keys.contains("image-path"@) || found),
{
}

/// The layout of the card for `notif`. `hint_keys` are the keys of its
/// hints; `hint_icon_found` tells whether a hint yielded an icon.
pub fn card_layout(
    notif: &Notification,
    appearance: &AppearanceConfig,
    hint_keys: &Vec<String>,
    hint_icon_found: bool,
) -> (r: CardLayout)
    ensures
        lays_out(r, *notif, *appearance, keys_view(hint_keys@), hint_icon_found),
        notif.app_icon@.len() > 0 ==> r.show_icon,
        hint_icon_found ==> r.show_icon,
{
    let ghost actions = actions_view(notif.actions@);
    let has_image_path = crate::icon::has_key(hint_keys, "image-path");
    let show_icon = !notif.app_icon.as_str().is_empty() || has_image_path || hint_icon_found;
    let show_app_name = appearance.show_app_name && !notif.app_name.as_str().is_empty()
        && notif.app_name != String::from_str("notify-send");
    let show_summary = !notif.summary.as_str().is_empty();
    let show_body = !notif.body.as_str().is_empty();
    let action_row = appearance.show_actions && notif.actions.len() > 0;

    let default_key = String::from_str("default");
    let ghost pred = |p: (Seq<char>, Seq<char>)| p.0 != "default"@;
    let mut buttons: Vec<(String, String)> = Vec::new();
    let mut has_default = false;
    let n = notif.actions.len();
    for i in 0..n
        invariant
            n == notif.actions@.len(),
            actions == actions_view(notif.actions@),
            default_key@ == "default"@,
            pred == (|p: (Seq<char>, Seq<char>)| p.0 != "default"@),
            actions_view(buttons@) =~= (if action_row {
                actions.take(i as int).filter(pred)
            } else {
                Seq::empty()
            }),
            has_default == exists|k: int| 0 <= k < i && (#[trigger] actions[k]).0 == "default"@,
    {
        reveal_with_fuel(Seq::<_>::filter, 1);
        assert(actions.take(i + 1).drop_last() =~= actions.take(i as int));
        let is_default = notif.actions[i].0 == default_key;
        assert(actions[i as int].0 == notif.actions@[i as int].0@);
        if is_default {
            has_default = true;
        } else if action_row {
            let key = notif.actions[i].0.clone();
            let label = notif.actions[i].1.clone();
            let ghost before = buttons@;
            buttons.push((key, label));
            assert(actions_view(buttons@) =~= actions_view(before).push((key@, label@)));
        }
    }
    assert(actions.take(n as int) =~= actions);
    let click = if has_default {
        CardClick::InvokeDefault
    } else {
        CardClick::Dismiss
    };
    let max_width = if appearance.max_width > 0 {
        Some(appearance.max_width)
    } else {
        None
    };
    let width_request = if appearance.max_width > 0 && appearance.min_width > appearance.max_width {
        appearance.max_width
    } else {
        appearance.min_width
    };
    CardLayout {
        width_request,
        max_width,
        show_icon,
        show_app_name,
        show_summary,
        show_body,
        action_row,
        buttons,
        click,
    }
}

} // verus!
