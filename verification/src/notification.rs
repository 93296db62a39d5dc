//! The notification record and the decoding of its wire-level hints.

use vstd::prelude::*;

verus! {

/// Priority tier of a notification; decides the default auto-close duration
/// and the visual styling of its popup.
#[derive(Debug, Clone, Copy, PartialEq, Eq, Structural)]
pub enum Urgency {
    Low,
    Normal,
    Critical,
}

impl Urgency {
    /// Decodes the raw byte of the `urgency` hint: `0`, `1` and `2` are the
    /// three tiers; any other byte is a protocol error for this single hint.
    pub fn from_hint_byte(b: u8) -> (r: Option<Urgency>)
        ensures
            r == Urgency::spec_from_hint_byte(b),
    {
        match b {
            0u8 => Some(Urgency::Low),
            1u8 => Some(Urgency::Normal),
            2u8 => Some(Urgency::Critical),
            _ => None,
        }
    }

    pub open spec fn spec_from_hint_byte(b: u8) -> Option<Urgency> {
        if b == 0 {
            Some(Urgency::Low)
        } else if b == 1 {
            Some(Urgency::Normal)
        } else if b == 2 {
            Some(Urgency::Critical)
        } else {
            None
        }
    }
}

/// The urgency tier as it is written to the persisted history.
#[derive(Debug, Clone, PartialEq, Eq, Structural)]
pub enum UrgencySerde {
    Low,
    Normal,
    Critical,
}

impl From<Urgency> for UrgencySerde {
    fn from(urgency: Urgency) -> (r: UrgencySerde) {
        match urgency {
            Urgency::Low => UrgencySerde::Low,
            Urgency::Normal => UrgencySerde::Normal,
            Urgency::Critical => UrgencySerde::Critical,
        }
    }
}

impl vstd::std_specs::convert::FromSpecImpl<Urgency> for UrgencySerde {
    open spec fn obeys_from_spec() -> bool {
        true
    }

    open spec fn from_spec(u: Urgency) -> UrgencySerde {
        match u {
            Urgency::Low => UrgencySerde::Low,
            Urgency::Normal => UrgencySerde::Normal,
            Urgency::Critical => UrgencySerde::Critical,
        }
    }
}

impl From<UrgencySerde> for Urgency {
    fn from(urgency: UrgencySerde) -> (r: Urgency) {
        match urgency {
            UrgencySerde::Low => Urgency::Low,
            UrgencySerde::Normal => Urgency::Normal,
            UrgencySerde::Critical => Urgency::Critical,
        }
    }
}

impl vstd::std_specs::convert::FromSpecImpl<UrgencySerde> for Urgency {
    open spec fn obeys_from_spec() -> bool {
        true
    }

    open spec fn from_spec(u: UrgencySerde) -> Urgency {
        match u {
            UrgencySerde::Low => Urgency::Low,
            UrgencySerde::Normal => Urgency::Normal,
            UrgencySerde::Critical => Urgency::Critical,
        }
    }
}

/// One notification, immutable once constructed. A replacement is a fresh
/// record that reuses the identity slot of the one it supersedes, never an
/// in-place change.
#[derive(Debug, Clone)]
pub struct Notification {
    /// Server-assigned, never 0 for an accepted notification.
    pub id: u32,
    pub app_name: String,
    /// Id of the notification this one supersedes; 0 means none.
    pub replaces_id: u32,
    pub app_icon: String,
    pub summary: String,
    pub body: String,
    /// Alternating key/label pairs; a trailing odd element is ignored.
    pub actions: Vec<String>,
    /// `0` = never auto-expire, `-1` = server default by urgency,
    /// `> 0` = milliseconds.
    pub expire_timeout: i32,
    pub urgency: Urgency,
    pub image_path: Option<String>,
    /// When set, hover-exit does not re-arm the auto-close timer and
    /// zero/negative timeouts never auto-close.
    pub resident: bool,
}

impl Notification {
    pub fn new(
        id: u32,
        app_name: String,
        replaces_id: u32,
        app_icon: String,
        summary: String,
        body: String,
        actions: Vec<String>,
        expire_timeout: i32,
        urgency: Urgency,
        image_path: Option<String>,
        resident: bool,
    ) -> (n: Notification)
        ensures
            n == (Notification {
                id,
                app_name,
                replaces_id,
                app_icon,
                summary,
                body,
                actions,
                expire_timeout,
                urgency,
                image_path,
                resident,
            }),
    {
        Notification {
            id,
            app_name,
            replaces_id,
            app_icon,
            summary,
            body,
            actions,
            expire_timeout,
            urgency,
            image_path,
            resident,
        }
    }
}

/// The three hints the service reads, already stripped of their bus framing:
/// each field is the hint's raw payload, or `None` when the hint is absent or
/// its payload had the wrong type.
#[derive(Debug, Clone)]
pub struct RawHints {
    pub urgency: Option<u8>,
    pub image_path: Option<String>,
    pub resident: Option<bool>,
}

/// What the `urgency` hint means: a recognized byte selects its tier, an
/// unrecognized or missing one falls back to `Normal`.
pub open spec fn spec_urgency_of_hint(h: Option<u8>) -> Urgency {
    match h {
        Some(b) => match Urgency::spec_from_hint_byte(b) {
            Some(u) => u,
            None => Urgency::Normal,
        },
        None => Urgency::Normal,
    }
}

/// Decodes the `urgency` hint, defaulting to `Normal` when it is absent or
/// malformed (the single hint is rejected, never the whole call).
pub fn urgency_of_hint(h: Option<u8>) -> (u: Urgency)
    ensures
        u == spec_urgency_of_hint(h),
{
    match h {
        Some(b) => match Urgency::from_hint_byte(b) {
            Some(u) => u,
            None => Urgency::Normal,
        },
        None => Urgency::Normal,
    }
}

/// What the `resident` hint means: absent defaults to `false`.
pub open spec fn spec_resident_of_hint(h: Option<bool>) -> bool {
    match h {
        Some(b) => b,
        None => false,
    }
}

/// Decodes the `resident` hint, defaulting to `false`.
pub fn resident_of_hint(h: Option<bool>) -> (r: bool)
    ensures
        r == spec_resident_of_hint(h),
{
    match h {
        Some(b) => b,
        None => false,
    }
}

} // verus!
