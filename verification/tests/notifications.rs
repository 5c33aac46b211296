use rnd::app::{anchor_layout, card_layout, CardClick, Effect, NotificationManager};
use rnd::config::{Anchor, AppearanceConfig, Config, GeneralConfig, TimeoutConfig};
use rnd::dbus::{capabilities, DaemonEvent, DaemonSignal, IdAllocator};
use rnd::history::{History, HistoryEntry};
use rnd::notification::{CloseReason, Notification, Urgency};

fn notif(id: u32, replaces_id: u32, expire_timeout: i32, urgency_hint: Option<u8>) -> Notification {
    Notification::new(
        id,
        "app".to_string(),
        replaces_id,
        "".to_string(),
        format!("summary {}", id),
        "body".to_string(),
        vec![],
        urgency_hint,
        expire_timeout,
        1_700_000_000,
    )
}

fn config_with_max(max_visible: usize) -> Config {
    let mut c = Config::default();
    c.general.max_visible = max_visible;
    c
}

fn closed(e: &Effect) -> Option<(u32, u32)> {
    match e {
        Effect::Signal(DaemonSignal::NotificationClosed { id, reason }) => Some((*id, *reason)),
        _ => None,
    }
}

#[test]
fn urgency_from_hint_byte() {
    assert_eq!(Urgency::from_hints(None), Urgency::Normal);
    assert_eq!(Urgency::from_hints(Some(0)), Urgency::Low);
    assert_eq!(Urgency::from_hints(Some(1)), Urgency::Normal);
    assert_eq!(Urgency::from_hints(Some(2)), Urgency::Critical);
    assert_eq!(Urgency::from_hints(Some(7)), Urgency::Normal);
}

#[test]
fn urgency_css_classes() {
    assert_eq!(Urgency::Low.css_class(), "urgency-low");
    assert_eq!(Urgency::Normal.css_class(), "urgency-normal");
    assert_eq!(Urgency::Critical.css_class(), "urgency-critical");
}

#[test]
fn actions_are_paired_and_odd_key_dropped() {
    let n = Notification::new(
        3,
        "a".to_string(),
        0,
        "i".to_string(),
        "s".to_string(),
        "b".to_string(),
        vec!["k1".to_string(), "L1".to_string(), "k2".to_string(), "L2".to_string(), "k3".to_string()],
        Some(2),
        -1,
        42,
    );
    assert_eq!(
        n.actions,
        vec![("k1".to_string(), "L1".to_string()), ("k2".to_string(), "L2".to_string())]
    );
    assert_eq!(n.urgency, Urgency::Critical);
    assert_eq!(n.timestamp, 42);
    assert_eq!(n.id, 3);
}

#[test]
fn effective_timeouts() {
    let d = TimeoutConfig::default();
    assert_eq!(notif(1, 0, 0, None).effective_timeout_ms(&d), None);
    assert_eq!(notif(1, 0, -1, Some(0)).effective_timeout_ms(&d), Some(4000));
    assert_eq!(notif(1, 0, -1, None).effective_timeout_ms(&d), Some(6000));
    assert_eq!(notif(1, 0, -1, Some(2)).effective_timeout_ms(&d), None);
    assert_eq!(notif(1, 0, 2500, Some(2)).effective_timeout_ms(&d), Some(2500));
    assert_eq!(notif(1, 0, -5, None).effective_timeout_ms(&d), Some(u64::MAX - 4));
    assert_eq!(notif(1, 0, -5, Some(2)).effective_timeout_ms(&d), Some(u64::MAX - 4));
}

#[test]
fn close_reason_codes() {
    assert_eq!(CloseReason::Expired.code(), 1);
    assert_eq!(CloseReason::DismissedByUser.code(), 2);
    assert_eq!(CloseReason::CloseNotificationCalled.code(), 3);
    assert_eq!(CloseReason::Undefined.code(), 4);
}

#[test]
fn config_defaults() {
    let c = Config::default();
    let g: GeneralConfig = c.general;
    assert_eq!(g.max_visible, 5);
    assert_eq!(g.history_size, 100);
    assert!(!g.persist_history);
    assert_eq!(g.anchor, Anchor::TopRight);
    assert_eq!(g.margin, 12);
    assert_eq!(g.gap, 6);
    assert_eq!(c.timeouts.low, 4000);
    assert_eq!(c.timeouts.normal, 6000);
    let a: AppearanceConfig = c.appearance;
    assert_eq!(a.min_width, 300);
    assert_eq!(a.max_width, 420);
    assert!(a.show_app_name);
    assert!(a.show_actions);
}

#[test]
fn show_evicts_oldest_beyond_max_visible() {
    let mut m = NotificationManager::new(config_with_max(2));
    let mut h = History::new(10, false, vec![]);
    m.show(&mut h, notif(1, 0, 0, None));
    m.show(&mut h, notif(2, 0, 0, None));
    let effects = m.show(&mut h, notif(3, 0, 0, None));
    assert_eq!(m.active_ids(), &vec![3, 2]);
    assert!(matches!(effects[0], Effect::RemoveCard { id: 1 }));
    assert_eq!(closed(&effects[1]), Some((1, 1)));
    assert!(matches!(effects[2], Effect::SetVisible(true)));
    assert!(matches!(&effects[3], Effect::ShowCard(n) if n.id == 3));
    assert!(matches!(effects[4], Effect::SetVisible(true)));
    assert_eq!(effects.len(), 5);
    assert_eq!(h.len(), 3);
}

#[test]
fn show_schedules_expiry_and_saves_persisted_history() {
    let mut m = NotificationManager::new(Config::default());
    let mut h = History::new(10, true, vec![]);
    let effects = m.show(&mut h, notif(7, 0, -1, Some(0)));
    assert!(matches!(effects[0], Effect::SaveHistory));
    assert!(matches!(&effects[1], Effect::ShowCard(n) if n.id == 7));
    assert!(matches!(effects[2], Effect::ScheduleExpiry { id: 7, ms: 4000 }));
    assert!(matches!(effects[3], Effect::SetVisible(true)));
    assert_eq!(effects.len(), 4);
}

#[test]
fn max_visible_zero_shows_no_card() {
    let mut m = NotificationManager::new(config_with_max(0));
    let mut h = History::new(10, false, vec![]);
    let effects = m.show(&mut h, notif(1, 0, 0, None));
    assert!(m.active_ids().is_empty());
    assert!(matches!(effects[..], [Effect::SetVisible(false)]));
    m.show(&mut h, notif(2, 0, 0, None));
    assert!(m.active_ids().is_empty());
    assert_eq!(h.len(), 2);
}

#[test]
fn replacing_updates_card_in_place() {
    let mut m = NotificationManager::new(Config::default());
    let mut h = History::new(10, false, vec![]);
    m.show(&mut h, notif(5, 0, 0, None));
    m.show(&mut h, notif(6, 0, 0, None));
    let effects = m.show(&mut h, notif(5, 5, 3000, None));
    assert_eq!(m.active_ids(), &vec![6, 5]);
    assert!(matches!(&effects[0], Effect::ReplaceCard { replaces: 5, notif } if notif.id == 5));
    assert!(matches!(effects[1], Effect::ScheduleExpiry { id: 5, ms: 3000 }));
    assert!(matches!(effects[2], Effect::SetVisible(true)));
    assert_eq!(effects.len(), 3);
    assert!(effects.iter().all(|e| closed(e).is_none()));
    assert_eq!(h.len(), 2);
    assert_eq!(h.entries()[0].id, 5);
}

#[test]
fn replacing_a_card_not_on_screen_puts_it_on_top() {
    let mut m = NotificationManager::new(Config::default());
    let mut h = History::new(10, false, vec![]);
    m.show(&mut h, notif(6, 0, 0, None));
    let effects = m.show(&mut h, notif(9, 9, 0, None));
    assert_eq!(m.active_ids(), &vec![9, 6]);
    assert!(matches!(&effects[0], Effect::ShowCard(n) if n.id == 9));
}

#[test]
fn closing_unknown_id_still_signals() {
    let mut m = NotificationManager::new(Config::default());
    let effects = m.close(99, CloseReason::CloseNotificationCalled);
    assert_eq!(effects.len(), 2);
    assert_eq!(closed(&effects[0]), Some((99, 3)));
    assert!(matches!(effects[1], Effect::SetVisible(false)));
}

#[test]
fn close_all_closes_newest_first_and_hides() {
    let mut m = NotificationManager::new(Config::default());
    let mut h = History::new(10, false, vec![]);
    m.show(&mut h, notif(1, 0, 0, None));
    m.show(&mut h, notif(2, 0, 0, None));
    let effects = m.close_all();
    assert!(m.active_ids().is_empty());
    let signals: Vec<(u32, u32)> = effects.iter().filter_map(closed).collect();
    assert_eq!(signals, vec![(2, 3), (1, 3)]);
    assert!(matches!(effects.last(), Some(Effect::SetVisible(false))));
}

#[test]
fn invoke_action_signals_then_dismisses() {
    let mut m = NotificationManager::new(Config::default());
    let mut h = History::new(10, false, vec![]);
    m.show(&mut h, notif(4, 0, 0, None));
    let effects = m.invoke_action(4, "open".to_string());
    assert!(matches!(&effects[0], Effect::Signal(DaemonSignal::ActionInvoked { id: 4, action_key }) if action_key == "open"));
    assert!(matches!(effects[1], Effect::RemoveCard { id: 4 }));
    assert_eq!(closed(&effects[2]), Some((4, 2)));
    assert!(matches!(effects[3], Effect::SetVisible(false)));
}

#[test]
fn history_events_through_handle_event() {
    let mut m = NotificationManager::new(Config::default());
    let mut h = History::new(10, true, vec![]);
    m.handle_event(&mut h, DaemonEvent::Show(notif(1, 0, 0, None)));
    m.handle_event(&mut h, DaemonEvent::Show(notif(2, 0, 0, None)));
    let e = m.handle_event(&mut h, DaemonEvent::HistoryRemove { id: Some(1) });
    assert!(matches!(e[..], [Effect::SaveHistory]));
    assert_eq!(h.len(), 1);
    m.handle_event(&mut h, DaemonEvent::HistoryRemove { id: None });
    assert_eq!(h.len(), 1);
    let e = m.handle_event(&mut h, DaemonEvent::ClearHistory);
    assert!(matches!(e[..], [Effect::SaveHistory]));
    assert!(h.is_empty());
    assert_eq!(m.active_ids(), &vec![2, 1]);
    let e = m.handle_event(&mut h, DaemonEvent::Close(2));
    assert_eq!(closed(&e[1]), Some((2, 3)));
    m.handle_event(&mut h, DaemonEvent::CloseAll);
    assert!(m.active_ids().is_empty());
    let e = m.handle_event(&mut h, DaemonEvent::InvokeAction { id: 9, action_key: "x".to_string() });
    assert_eq!(e.len(), 3);
}

#[test]
fn history_push_replaces_and_bounds() {
    let mut h = History::new(2, false, vec![]);
    h.push(&notif(1, 0, 0, None));
    h.push(&notif(2, 0, 0, None));
    h.push(&notif(1, 0, 0, None));
    let ids: Vec<u32> = h.all_entries().iter().map(|e| e.id).collect();
    assert_eq!(ids, vec![1, 2]);
    h.push(&notif(3, 0, 0, None));
    let ids: Vec<u32> = h.entries().iter().map(|e| e.id).collect();
    assert_eq!(ids, vec![3, 1]);
    assert_eq!(h.max_size(), 2);
    let once = h.all_entries();
    h.push(&notif(3, 0, 0, None));
    let twice: Vec<u32> = h.all_entries().iter().map(|e| e.id).collect();
    assert_eq!(twice, once.iter().map(|e| e.id).collect::<Vec<u32>>());
}

#[test]
fn history_with_zero_bound_stays_empty() {
    let mut h = History::new(0, false, vec![]);
    h.push(&notif(1, 0, 0, None));
    assert!(h.is_empty());
}

fn plain_entry(id: u32) -> HistoryEntry {
    HistoryEntry {
        id,
        app_name: "a".to_string(),
        app_icon: "".to_string(),
        summary: "s".to_string(),
        body: "".to_string(),
        urgency: Urgency::Normal,
        timestamp: 1,
        expire_timeout: -1,
    }
}

#[test]
fn history_from_disk_is_cut_to_bound_only_when_persisted() {
    let h = History::new(2, true, vec![plain_entry(1), plain_entry(2), plain_entry(3)]);
    assert_eq!(h.all_entries(), vec![plain_entry(1), plain_entry(2)]);
    assert!(h.persist());
    let h = History::new(2, false, vec![plain_entry(1)]);
    assert!(h.is_empty());
    assert!(!h.persist());
}

#[test]
fn history_entry_records_notification() {
    let n = notif(8, 0, 3000, Some(0));
    let e = HistoryEntry::from_notification(&n);
    assert_eq!(e.id, 8);
    assert_eq!(e.summary, "summary 8");
    assert_eq!(e.urgency, Urgency::Low);
    assert_eq!(e.expire_timeout, 3000);
    assert_eq!(e.duplicate(), e);
}

#[test]
fn ids_start_at_one_and_honour_replaces() {
    let mut a = IdAllocator::new();
    assert_eq!(a.assign(0), 1);
    assert_eq!(a.assign(0), 2);
    assert_eq!(a.assign(17), 17);
    assert_eq!(a.assign(0), 3);
}

#[test]
fn reported_capabilities() {
    assert_eq!(capabilities(), vec!["body", "body-markup", "actions", "icon-static", "persistence"]);
}

#[test]
fn signal_member_names() {
    assert_eq!(DaemonSignal::NotificationClosed { id: 1, reason: 1 }.member(), "NotificationClosed");
    assert_eq!(DaemonSignal::ActionInvoked { id: 1, action_key: "k".to_string() }.member(), "ActionInvoked");
}

#[test]
fn anchors_attach_expected_edges() {
    let l = anchor_layout(Anchor::TopRight, 12);
    assert!(l.top && l.right && !l.bottom && !l.left);
    assert_eq!((l.margin_top, l.margin_right, l.margin_bottom, l.margin_left), (12, 12, 0, 0));
    let l = anchor_layout(Anchor::BottomCenter, 7);
    assert!(l.bottom && !l.top && !l.left && !l.right);
    assert_eq!((l.margin_top, l.margin_right, l.margin_bottom, l.margin_left), (0, 0, 7, 0));
    let l = anchor_layout(Anchor::TopLeft, 3);
    assert!(l.top && l.left);
    assert_eq!(l.margin_left, 3);
    let l = anchor_layout(Anchor::BottomLeft, 3);
    assert!(l.bottom && l.left && l.margin_bottom == 3);
    let l = anchor_layout(Anchor::BottomRight, 3);
    assert!(l.bottom && l.right && l.margin_right == 3);
    let l = anchor_layout(Anchor::TopCenter, 3);
    assert!(l.top && !l.left && !l.right && l.margin_top == 3);
}

#[test]
fn card_hides_notify_send_name_and_default_button() {
    let n = Notification::new(
        1,
        "notify-send".to_string(),
        0,
        "".to_string(),
        "".to_string(),
        "text".to_string(),
        vec!["default".to_string(), "Open".to_string(), "later".to_string(), "Later".to_string()],
        None,
        -1,
        0,
    );
    let a = AppearanceConfig::default();
    let l = card_layout(&n, &a, &vec!["urgency".to_string()], false);
    assert_eq!(l.width_request, 300);
    assert_eq!(l.max_width, Some(420));
    assert!(!l.show_icon);
    assert!(!l.show_app_name);
    assert!(!l.show_summary);
    assert!(l.show_body);
    assert!(l.action_row);
    assert_eq!(l.buttons, vec![("later".to_string(), "Later".to_string())]);
    assert_eq!(l.click, CardClick::InvokeDefault);
    let l = card_layout(&n, &a, &vec!["image-path".to_string()], false);
    assert!(l.show_icon);
}

#[test]
fn card_without_actions_dismisses_on_click() {
    let n = notif(1, 0, 0, None);
    let mut a = AppearanceConfig::default();
    a.show_actions = false;
    let l = card_layout(&n, &a, &vec![], true);
    assert!(l.show_icon);
    assert!(l.show_app_name);
    assert!(!l.action_row);
    assert!(l.buttons.is_empty());
    assert_eq!(l.click, CardClick::Dismiss);
}

#[test]
fn card_width_never_exceeds_maximum() {
    let n = notif(1, 0, 0, None);
    let mut a = AppearanceConfig::default();
    a.min_width = 500;
    a.max_width = 420;
    let l = card_layout(&n, &a, &vec![], false);
    assert_eq!((l.width_request, l.max_width), (420, Some(420)));
    a.max_width = 0;
    let l = card_layout(&n, &a, &vec![], false);
    assert_eq!((l.width_request, l.max_width), (500, None));
}

#[test]
fn history_pushes_are_newest_first() {
    let mut h = History::new(5, false, vec![]);
    for id in 1..=4 {
        h.push(&notif(id, 0, 0, None));
    }
    let ids: Vec<u32> = h.all_entries().iter().map(|e| e.id).collect();
    assert_eq!(ids, vec![4, 3, 2, 1]);
    assert_eq!(h.all_entries().len(), h.len());
}
