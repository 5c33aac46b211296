//! Notifications as the daemon receives them over the FDO interface.
use vstd::prelude::*;

use crate::config::TimeoutConfig;

verus! {

// ── Urgency ───────────────────────────────────────────────────────────────────

/// Urgency level of a notification (FDO spec: 0 = low, 1 = normal, 2 = critical).
#[derive(Debug, Clone, Copy, PartialEq, Eq, Structural)]
pub enum Urgency {
    Low,
    Normal,
    Critical,
}

/// The urgency that the raw `urgency` hint byte selects; an absent hint, or
/// one that is not a byte, is normal urgency.
pub open spec fn urgency_of_hint(hint: Option<u8>) -> Urgency {
    match hint {
        Some(b) => if b == 0 {
            Urgency::Low
        } else if b == 2 {
            Urgency::Critical
        } else {
            Urgency::Normal
        },
        None => Urgency::Normal,
    }
}

impl Urgency {
    /// Urgency from the `urgency` hint: `urgency_hint` is the hint's value when
    /// the hint is present and holds a byte, `None` otherwise.
    pub fn from_hints(urgency_hint: Option<u8>) -> (r: Urgency)
        ensures
            r == urgency_of_hint(urgency_hint),
            urgency_hint == Some(0u8) ==> r == Urgency::Low,
            urgency_hint == Some(2u8) ==> r == Urgency::Critical,
            (urgency_hint != Some(0u8) && urgency_hint != Some(2u8)) ==> r == Urgency::Normal,
    {
        match urgency_hint {
            Some(b) => if b == 0 {
                Urgency::Low
            } else if b == 2 {
                Urgency::Critical
            } else {
                Urgency::Normal
            },
            None => Urgency::Normal,
        }
    }

    /// CSS class that styles a card of this urgency.
    pub fn css_class(self) -> (r: &'static str)
        ensures
            self == Urgency::Low ==> r@ == "urgency-low"@,
            self == Urgency::Normal ==> r@ == "urgency-normal"@,
            self == Urgency::Critical ==> r@ == "urgency-critical"@,
    {
        match self {
            Urgency::Low => "urgency-low",
            Urgency::Normal => "urgency-normal",
            Urgency::Critical => "urgency-critical",
        }
    }
}

// ── Notification ──────────────────────────────────────────────────────────────

/// A notification as received from a client.
///
/// The raw D-Bus hints are not held here: what the daemon reads of them
/// (the urgency byte, which keys may carry an icon) is passed in as plain
/// values, and the hint values themselves stay with the presentation layer.
#[derive(Debug)]
pub struct Notification {
    pub id: u32,
    pub app_name: String,
    pub replaces_id: u32,
    pub app_icon: String,
    pub summary: String,
    pub body: String,
    /// Pairs of (action_key, action_label).
    pub actions: Vec<(String, String)>,
    /// -1 = server default, 0 = never expire, >0 = milliseconds
    pub expire_timeout: i32,
    pub urgency: Urgency,
    /// Unix timestamp (seconds) when the notification was received.
    pub timestamp: u64,
}

/// The flat FDO action list `[key0, label0, key1, label1, ...]` read as pairs;
/// a trailing key without a label is dropped.
pub open spec fn paired_actions(flat: Seq<Seq<char>>) -> Seq<(Seq<char>, Seq<char>)> {
    Seq::new(flat.len() / 2, |i: int| (flat[2 * i], flat[2 * i + 1]))
}

/// The view of an action list: each pair of strings by its characters.
pub open spec fn actions_view(actions: Seq<(String, String)>) -> Seq<(Seq<char>, Seq<char>)> {
    actions.map_values(|p: (String, String)| (p.0@, p.1@))
}

/// The view of a list of strings: each by its characters.
pub open spec fn strings_view(v: Seq<String>) -> Seq<Seq<char>> {
    v.map_values(|s: String| s@)
}

/// The timeout, in milliseconds, after which a notification expires, or `None`
/// when it never expires on its own.
pub open spec fn spec_effective_timeout(expire_timeout: i32, urgency: Urgency, low: u32, normal: u32) -> Option<u64> {
    if expire_timeout == 0 {
        None
    } else if expire_timeout == -1 {
        match urgency {
            Urgency::Critical => None,
            Urgency::Low => Some(low as u64),
            Urgency::Normal => Some(normal as u64),
        }
    } else if expire_timeout > 0 {
        Some(expire_timeout as u64)
    } else {
        // a negative value other than -1 is taken as a 64-bit unsigned value
        Some((expire_timeout + 0x1_0000_0000_0000_0000int) as u64)
    }
}

impl Notification {
    /// Builds a notification from the arguments of an FDO `Notify` call.
    ///
    /// `urgency_hint` is the value of the `urgency` hint when it is present and
    /// holds a byte; `timestamp` is the receive time in Unix seconds.
    pub fn new(
        id: u32,
        app_name: String,
        replaces_id: u32,
        app_icon: String,
        summary: String,
        body: String,
        actions_flat: Vec<String>,
        urgency_hint: Option<u8>,
        expire_timeout: i32,
        timestamp: u64,
    ) -> (r: Notification)
        ensures
            r.id == id,
            r.app_name == app_name,
            r.replaces_id == replaces_id,
            r.app_icon == app_icon,
            r.summary == summary,
            r.body == body,
            actions_view(r.actions@) == paired_actions(strings_view(actions_flat@)),
            r.expire_timeout == expire_timeout,
            r.urgency == urgency_of_hint(urgency_hint),
            r.timestamp == timestamp,
    {
        let urgency = Urgency::from_hints(urgency_hint);

        let ghost flat = strings_view(actions_flat@);
        let mut actions: Vec<(String, String)> = Vec::new();
        let n = actions_flat.len();
        let mut i: usize = 0;
        while i + 1 < n
            invariant
                n == actions_flat@.len(),
                flat == strings_view(actions_flat@),
                i % 2 == 0,
                i <= n,
                actions@.len() == i / 2,
                forall|k: int|
                    0 <= k < actions@.len() ==> #[trigger] actions@[k].0@ == flat[2 * k]
                        && actions@[k].1@ == flat[2 * k + 1],
            decreases n - i,
        {
            let key = actions_flat[i].clone();
            let label = actions_flat[i + 1].clone();
            actions.push((key, label));
            i = i + 2;
        }
        assert(actions_view(actions@) =~= paired_actions(flat));

        Notification {
            id,
            app_name,
            replaces_id,
            app_icon,
            summary,
            body,
            actions,
            expire_timeout,
            urgency,
            timestamp,
        }
    }

    /// How long the notification stays on screen, in milliseconds; `None`
    /// when it stays until closed.
    pub fn effective_timeout_ms(&self, defaults: &TimeoutConfig) -> (r: Option<u64>)
        ensures
            r == spec_effective_timeout(self.expire_timeout, self.urgency, defaults.low, defaults.normal),
    {
        match self.expire_timeout {
            0 => None,
            -1 => match self.urgency {
                Urgency::Critical => None,
                Urgency::Low => Some(defaults.low as u64),
                Urgency::Normal => Some(defaults.normal as u64),
            },
            ms => {
                if ms > 0 {
                    Some(ms as u64)
                } else {
                    let r = ms as u64;
                    assert(r == (ms + 0x1_0000_0000_0000_0000int) as u64) by (bit_vector)
                        requires
                            ms < 0,
                            r == ms as u64;
                    Some(r)
                }
            },
        }
    }
}

/// A notification that asks never to expire stays until closed, and so does
/// a critical one that leaves the timeout to the server; every other
/// notification expires: after the time it asks for, or, when it leaves the
/// timeout to the server, after the configured default of its urgency.
pub proof fn lemma_expiry_rules(expire_timeout: i32, urgency: Urgency, low: u32, normal: u32)
    ensures
        expire_timeout == -1 && urgency == Urgency::Low
            ==> spec_effective_timeout(expire_timeout, urgency, low, normal) == Some(low as u64),
        expire_timeout == -1 && urgency == Urgency::Normal
            ==> spec_effective_timeout(expire_timeout, urgency, low, normal) == Some(normal as u64),
        expire_timeout == 0 ==> spec_effective_timeout(expire_timeout, urgency, low, normal) is None,
        expire_timeout == -1 && urgency == Urgency::Critical
            ==> spec_effective_timeout(expire_timeout, urgency, low, normal) is None,
        expire_timeout > 0 ==> spec_effective_timeout(expire_timeout, urgency, low, normal) == Some(expire_timeout as u64),
        (expire_timeout != 0 && !(expire_timeout == -1 && urgency == Urgency::Critical))
            ==> spec_effective_timeout(expire_timeout, urgency, low, normal) is Some,
{
}

// ── Close reasons (FDO spec §3.6) ─────────────────────────────────────────────

/// Why a notification was closed, as reported in `NotificationClosed`.
#[derive(Debug, Clone, Copy, PartialEq, Eq, Structural)]
pub enum CloseReason {
    Expired,
    DismissedByUser,
    CloseNotificationCalled,
    Undefined,
}

/// The FDO code of a close reason.
pub open spec fn reason_code(reason: CloseReason) -> u32 {
    match reason {
        CloseReason::Expired => 1,
        CloseReason::DismissedByUser => 2,
        CloseReason::CloseNotificationCalled => 3,
        CloseReason::Undefined => 4,
    }
}

impl CloseReason {
    /// The FDO code sent with `NotificationClosed`.
    pub fn code(self) -> (r: u32)
        ensures
            r == reason_code(self),
    {
        match self {
            CloseReason::Expired => 1,
            CloseReason::DismissedByUser => 2,
            CloseReason::CloseNotificationCalled => 3,
            CloseReason::Undefined => 4,
        }
    }
}

} // verus!
