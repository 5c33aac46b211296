//! Messages between the bus side of the daemon and its notification manager,
//! and the decisions that the bus methods make.
use vstd::prelude::*;

use vstd::string::StringExecFns;

use crate::history::{entries_view, EntryView, HistoryEntry};
use crate::notification::{Notification, Urgency};

verus! {

// ── Cross-thread messages ─────────────────────────────────────────────────────

/// A request that reached the daemon over the bus.
#[derive(Debug)]
#[allow(inconsistent_fields)]
pub enum DaemonEvent {
    Show(Notification),
    Close(u32),
    CloseAll,
    InvokeAction { id: u32, action_key: String },
    ClearHistory,
    HistoryRemove { id: Option<u32> },
}

/// A signal that the daemon emits on the bus.
#[derive(Debug)]
pub enum DaemonSignal {
    NotificationClosed { id: u32, reason: u32 },
    ActionInvoked { id: u32, action_key: String },
}

impl DaemonSignal {
    /// The bus member name of the signal.
    pub fn member(&self) -> (r: &'static str)
        ensures
            self is NotificationClosed ==> r@ == "NotificationClosed"@,
            self is ActionInvoked ==> r@ == "ActionInvoked"@,
    {
        match self {
            DaemonSignal::NotificationClosed { .. } => "NotificationClosed",
            DaemonSignal::ActionInvoked { .. } => "ActionInvoked",
        }
    }
}

// ── Notification ids ──────────────────────────────────────────────────────────

/// Hands out notification ids: the id a client asks to replace, or else the
/// next value of a wrapping counter, skipping 0 (which FDO reserves).
pub struct IdAllocator {
    next: u32,
}

/// The counter after one step.
pub open spec fn bump(v: u32) -> u32 {
    if v == u32::MAX {
        0
    } else {
        (v + 1) as u32
    }
}

/// The id handed out for a `Notify` call with `replaces_id` when the counter
/// stands at `next`, and the counter afterwards.
pub open spec fn spec_assign(next: u32, replaces_id: u32) -> (u32, u32) {
    if replaces_id != 0 {
        (replaces_id, next)
    } else if next == 0 {
        (bump(next), bump(bump(next)))
    } else {
        (next, bump(next))
    }
}

/// A client's `replaces_id` is kept as the id, and the counter does not move;
/// otherwise the id is the counter's value (the one after it when the counter
/// stands at 0, which is never handed out), and the counter moves on past the
/// id. Two fresh ids in a row differ, and no id is 0.
pub proof fn lemma_assign_ids(next: u32, replaces_id: u32)
    ensures
        replaces_id != 0 ==> spec_assign(next, replaces_id) == (replaces_id, next),
        replaces_id == 0 && next != 0 ==> spec_assign(next, replaces_id).0 == next,
        replaces_id == 0 && next == 0 ==> spec_assign(next, replaces_id).0 == 1,
        replaces_id == 0 ==> spec_assign(next, replaces_id).1 as int
            == (spec_assign(next, replaces_id).0 as int + 1) % 0x1_0000_0000,
        spec_assign(next, replaces_id).0 != 0,
        spec_assign(spec_assign(next, 0).1, 0).0 != spec_assign(next, 0).0,
{
}

impl IdAllocator {
    /// The counter's current value.
    pub closed spec fn spec_next(&self) -> u32 {
        self.next
    }

    /// A counter that starts at 1.
    pub fn new() -> (r: IdAllocator)
        ensures
            r.spec_next() == 1,
    {
        IdAllocator { next: 1 }
    }

    /// The id of a notification sent with `replaces_id`.
    pub fn assign(&mut self, replaces_id: u32) -> (id: u32)
        ensures
            (id, final(self).spec_next()) == spec_assign(old(self).spec_next(), replaces_id),
            id != 0,
    {
        if replaces_id != 0 {
            replaces_id
        } else {
            let v = self.next;
            self.next = self.next.wrapping_add(1);
            if v == 0 {
                let w = self.next;
                self.next = self.next.wrapping_add(1);
                w
            } else {
                v
            }
        }
    }
}

/// The capabilities that `GetCapabilities` reports.
pub open spec fn spec_capabilities() -> Seq<Seq<char>> {
    seq!["body"@, "body-markup"@, "actions"@, "icon-static"@, "persistence"@]
}

/// The capabilities that the daemon reports over the bus.
pub fn capabilities() -> (r: Vec<&'static str>)
    ensures
        r@.map_values(|s: &str| s@) == spec_capabilities(),
{
    let r = vec!["body", "body-markup", "actions", "icon-static", "persistence"];
    assert(r@.map_values(|s: &str| s@) =~= spec_capabilities());
    r
}

// ── History over the control interface ────────────────────────────────────────

/// One history entry as the control interface reports it (the field set of
/// dunst's history, so that existing launchers can read it). Each field is
/// sent as a typed variant; the type letters are those of D-Bus.
#[derive(Debug)]
pub struct HistoryRecord {
    /// `s`: the body text.
    pub body: String,
    /// `s`: the summary in bold, a newline, then the body.
    pub message: String,
    /// `s`
    pub summary: String,
    /// `s`
    pub appname: String,
    /// `s`: always empty.
    pub category: &'static str,
    /// `s`: always `default`.
    pub default_action_name: &'static str,
    /// `s`: the application icon.
    pub icon_path: String,
    /// `i`
    pub id: u32,
    /// `x`: receive time in microseconds.
    pub timestamp: i64,
    /// `x`: the requested timeout in microseconds when positive, else as requested.
    pub timeout: i64,
    /// `i`: always -1.
    pub progress: i32,
    /// `s`: `LOW`, `NORMAL` or `CRITICAL`.
    pub urgency: &'static str,
    /// `s`: always empty.
    pub stack_tag: &'static str,
    /// `s`: always empty.
    pub urls: &'static str,
}

/// A Unix timestamp read as a signed 64-bit value, as the report reads it.
pub open spec fn signed_seconds(t: u64) -> int {
    if t <= i64::MAX {
        t as int
    } else {
        t - 0x1_0000_0000_0000_0000int
    }
}

/// The receive time of an entry fits the report's microsecond field.
pub open spec fn timestamp_reportable(t: u64) -> bool {
    i64::MIN <= signed_seconds(t) * 1_000_000 <= i64::MAX
}

/// The report's name for an urgency.
pub open spec fn urgency_word(u: Urgency) -> Seq<char> {
    match u {
        Urgency::Low => "LOW"@,
        Urgency::Normal => "NORMAL"@,
        Urgency::Critical => "CRITICAL"@,
    }
}

/// The report's timeout: microseconds for a positive request, else the
/// request itself (0 = never, -1 = server default).
pub open spec fn report_timeout(expire_timeout: i32) -> int {
    if expire_timeout > 0 {
        expire_timeout * 1000
    } else {
        expire_timeout as int
    }
}

/// The record reports the entry.
pub open spec fn reports(r: HistoryRecord, e: EntryView) -> bool {
    &&& r.body@ == e.body
    &&& r.message@ == "<b>"@ + e.summary + "</b>\n"@ + e.body
    &&& r.summary@ == e.summary
    &&& r.appname@ == e.app_name
    &&& r.category@ == ""@
    &&& r.default_action_name@ == "default"@
    &&& r.icon_path@ == e.app_icon
    &&& r.id == e.id
    &&& r.timestamp == signed_seconds(e.timestamp) * 1_000_000
    &&& r.timeout == report_timeout(e.expire_timeout)
    &&& r.progress == -1
    &&& r.urgency@ == urgency_word(e.urgency)
    &&& r.stack_tag@ == ""@
    &&& r.urls@ == ""@
}

/// The report of one history entry.
pub fn history_record(e: &HistoryEntry) -> (r: HistoryRecord)
    requires
        timestamp_reportable(e.timestamp),
    ensures
        reports(r, e@),
{
    let urgency = match e.urgency {
        Urgency::Low => "LOW",
        Urgency::Normal => "NORMAL",
        Urgency::Critical => "CRITICAL",
    };
    let timeout: i64 = if e.expire_timeout > 0 {
        (e.expire_timeout as i64) * 1000
    } else {
        e.expire_timeout as i64
    };
    let t = e.timestamp;
    let secs: i64 = if t <= 0x7fff_ffff_ffff_ffff {
        t as i64
    } else {
        let v = t as i64;
        assert(v == t - 0x1_0000_0000_0000_0000int) by (bit_vector)
            requires
                t > 0x7fff_ffff_ffff_ffff,
                v == t as i64;
        v
    };
    let timestamp = secs * 1_000_000;
    let mut message = String::from_str("<b>");
    message.append(e.summary.as_str());
    message.append("</b>\n");
    message.append(e.body.as_str());
    HistoryRecord {
        body: e.body.clone(),
        message,
        summary: e.summary.clone(),
        appname: e.app_name.clone(),
        category: "",
        default_action_name: "default",
        icon_path: e.app_icon.clone(),
        id: e.id,
        timestamp,
        timeout,
        progress: -1,
        urgency,
        stack_tag: "",
        urls: "",
    }
}

/// The report of the whole history, newest first.
pub fn history_records(entries: &Vec<HistoryEntry>) -> (r: Vec<HistoryRecord>)
    requires
        forall|i: int| 0 <= i < entries@.len() ==> timestamp_reportable(#[trigger] entries@[i].timestamp),
    ensures
        r@.len() == entries@.len(),
        forall|i: int| 0 <= i < r@.len() ==> reports(#[trigger] r@[i], entries_view(entries@)[i]),
{
    let mut out: Vec<HistoryRecord> = Vec::new();
    let n = entries.len();
    for i in 0..n
        invariant
            n == entries@.len(),
            forall|k: int| 0 <= k < entries@.len() ==> timestamp_reportable(#[trigger] entries@[k].timestamp),
            out@.len() == i,
            forall|k: int| 0 <= k < i ==> reports(#[trigger] out@[k], entries_view(entries@)[k]),
    {
        out.push(history_record(&entries[i]));
    }
    out
}

/// The value of a report field.
#[derive(Debug, PartialEq, Eq)]
pub enum ReportValue {
    Text(String),
    Fixed(&'static str),
    Int(i64),
}

/// One field of a reported notification: its key, its D-Bus type letter,
/// and its value.
#[derive(Debug, PartialEq, Eq)]
pub struct ReportField {
    pub key: &'static str,
    pub kind: &'static str,
    pub value: ReportValue,
}

/// The fields of a record in report order, as keys and type letters.
pub open spec fn report_keys() -> Seq<(Seq<char>, Seq<char>)> {
    seq![
        ("body"@, "s"@),
        ("message"@, "s"@),
        ("summary"@, "s"@),
        ("appname"@, "s"@),
        ("category"@, "s"@),
        ("default_action_name"@, "s"@),
        ("icon_path"@, "s"@),
        ("id"@, "i"@),
        ("timestamp"@, "x"@),
        ("timeout"@, "x"@),
        ("progress"@, "i"@),
        ("urgency"@, "s"@),
        ("stack_tag"@, "s"@),
        ("urls"@, "s"@),
    ]
}

/// The values of a record's fields, in report order.
pub open spec fn report_values(r: HistoryRecord) -> Seq<ReportValue> {
    seq![
        ReportValue::Text(r.body),
        ReportValue::Text(r.message),
        ReportValue::Text(r.summary),
        ReportValue::Text(r.appname),
        ReportValue::Fixed(r.category),
        ReportValue::Fixed(r.default_action_name),
        ReportValue::Text(r.icon_path),
        ReportValue::Int(r.id as i64),
        ReportValue::Int(r.timestamp),
        ReportValue::Int(r.timeout),
        ReportValue::Int(r.progress as i64),
        ReportValue::Fixed(r.urgency),
        ReportValue::Fixed(r.stack_tag),
        ReportValue::Fixed(r.urls),
    ]
}

fn field(key: &'static str, kind: &'static str, value: ReportValue) -> (r: ReportField)
    ensures
        r == (ReportField { key, kind, value }),
{
    ReportField { key, kind, value }
}

/// The typed fields under which a record is reported.
pub fn report_fields(r: HistoryRecord) -> (f: Vec<ReportField>)
    ensures
        f@.len() == report_keys().len(),
        forall|i: int| 0 <= i < f@.len() ==> (#[trigger] f@[i]).key@ == report_keys()[i].0
            && f@[i].kind@ == report_keys()[i].1 && f@[i].value == report_values(r)[i],
{
    let ghost rv = report_values(r);
    let f = vec![
        field("body", "s", ReportValue::Text(r.body)),
        field("message", "s", ReportValue::Text(r.message)),
        field("summary", "s", ReportValue::Text(r.summary)),
        field("appname", "s", ReportValue::Text(r.appname)),
        field("category", "s", ReportValue::Fixed(r.category)),
        field("default_action_name", "s", ReportValue::Fixed(r.default_action_name)),
        field("icon_path", "s", ReportValue::Text(r.icon_path)),
        field("id", "i", ReportValue::Int(r.id as i64)),
        field("timestamp", "x", ReportValue::Int(r.timestamp)),
        field("timeout", "x", ReportValue::Int(r.timeout)),
        field("progress", "i", ReportValue::Int(r.progress as i64)),
        field("urgency", "s", ReportValue::Fixed(r.urgency)),
        field("stack_tag", "s", ReportValue::Fixed(r.stack_tag)),
        field("urls", "s", ReportValue::Fixed(r.urls)),
    ];
    assert forall|i: int| 0 <= i < f@.len() implies (#[trigger] f@[i]).key@ == report_keys()[i].0
        && f@[i].kind@ == report_keys()[i].1 && f@[i].value == rv[i] by {}
    f
}

/// The type letter of the whole report: a list of dictionaries.
pub fn report_kind() -> (r: &'static str)
    ensures
        r@ == "aa{sv}"@,
{
    "aa{sv}"
}

} // verus!
