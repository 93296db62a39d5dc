//! Lifecycle of one on-screen popup.
//!
//! A popup moves through `Displaying -> (Hovered <-> CountingDown) -> Closing
//! -> Destroyed`. It owns its dismissal timer as a value (`timer_ms`): the
//! surrounding shell arms a real timer for that duration and reports the fire
//! back, so every decision about arming, suspending and latching lives here.

use vstd::prelude::*;

use crate::notification::Notification;
use crate::notification::Urgency;
use crate::config::NotificationPosition;

verus! {

/// Fallback auto-close duration for urgencies below `Critical`, in milliseconds.
pub const DEFAULT_TIMEOUT_MS: u64 = 5000;

/// Fallback auto-close duration for `Critical` urgency, in milliseconds.
pub const CRITICAL_TIMEOUT_MS: u64 = 10000;

/// What a popup reports back to the orchestrator.
#[derive(Debug, Clone, PartialEq, Eq)]
pub enum PopupCommand {
    Close(u32),
    ActionInvoked(u32, String),
}

/// Where a popup stands in its life.
#[derive(Debug, Clone, Copy, PartialEq, Eq, Structural)]
pub enum PopupPhase {
    /// On screen, dismissal timer armed unless the effective duration is "never".
    Displaying,
    /// Pointer is over the popup; the timer is suspended.
    Hovered,
    /// Pointer left again; a fresh fallback timer is counting down.
    CountingDown,
    /// A close sequence has begun; this is a one-way gate.
    Closing,
    /// Gone; all timers are torn down.
    Destroyed,
}

/// The auto-close duration a notification asks for: `None` means never.
///
/// A positive `expire_timeout` is taken as milliseconds, `0` disables the
/// timer, and any negative value selects the server default for the urgency —
/// unless the notification is resident, in which case the default is also
/// "never".
pub open spec fn spec_effective_timeout_ms(
    expire_timeout: i32,
    urgency: Urgency,
    resident: bool,
) -> Option<u64> {
    if expire_timeout > 0 {
        Some(expire_timeout as u64)
    } else if expire_timeout == 0 {
        None
    } else if resident {
        None
    } else {
        Some(spec_fallback_timeout_ms(urgency))
    }
}

/// The fixed fallback duration keyed only by urgency.
pub open spec fn spec_fallback_timeout_ms(urgency: Urgency) -> u64 {
    if urgency is Critical {
        CRITICAL_TIMEOUT_MS
    } else {
        DEFAULT_TIMEOUT_MS
    }
}

/// Computes the initial dismissal duration of a notification.
pub fn effective_timeout_ms(expire_timeout: i32, urgency: Urgency, resident: bool) -> (r: Option<
    u64,
>)
    ensures
        r == spec_effective_timeout_ms(expire_timeout, urgency, resident),
{
    if expire_timeout > 0 {
        Some(expire_timeout as u64)
    } else if expire_timeout == 0 {
        None
    } else if resident {
        None
    } else {
        Some(fallback_timeout_ms(urgency))
    }
}

/// Computes the fallback duration for an urgency.
pub fn fallback_timeout_ms(urgency: Urgency) -> (r: u64)
    ensures
        r == spec_fallback_timeout_ms(urgency),
{
    match urgency {
        Urgency::Critical => CRITICAL_TIMEOUT_MS,
        _ => DEFAULT_TIMEOUT_MS,
    }
}

/// One on-screen notification popup: its identity, the facts that drive its
/// timer, and its lifecycle state. The window itself is outside; the shell
/// mirrors `vertical_position` into the window margin and `timer_ms` into a
/// real timer.
#[derive(Debug, Clone, Copy)]
pub struct NotificationPopup {
    pub notification_id: u32,
    pub urgency: Urgency,
    pub resident: bool,
    pub position: NotificationPosition,
    pub vertical_position: i32,
    /// Last height the shell measured for the window; 0 while unknown.
    pub measured_height: i32,
    pub phase: PopupPhase,
    /// Armed dismissal duration; `None` when no timer is running.
    pub timer_ms: Option<u64>,
}

impl NotificationPopup {
    /// The `is_closing` latch: once a close sequence has begun, no event may
    /// start another.
    pub open spec fn spec_is_closing(self) -> bool {
        self.phase is Closing || self.phase is Destroyed
    }

    pub fn is_closing(&self) -> (r: bool)
        ensures
            r == self.spec_is_closing(),
    {
        match self.phase {
            PopupPhase::Closing => true,
            PopupPhase::Destroyed => true,
            _ => false,
        }
    }

    /// Builds the popup for `n` at the given stacking offset, entering
    /// `Displaying` with the timer armed per the notification's effective
    /// duration.
    pub fn new(n: &Notification, initial_vertical_position: i32, position: NotificationPosition) -> (p:
        NotificationPopup)
        ensures
            p == NotificationPopup::spec_new(*n, initial_vertical_position, position),
    {
        NotificationPopup {
            notification_id: n.id,
            urgency: n.urgency,
            resident: n.resident,
            position,
            vertical_position: initial_vertical_position,
            measured_height: 0,
            phase: PopupPhase::Displaying,
            timer_ms: effective_timeout_ms(n.expire_timeout, n.urgency, n.resident),
        }
    }

    pub open spec fn spec_new(
        n: Notification,
        initial_vertical_position: i32,
        position: NotificationPosition,
    ) -> NotificationPopup {
        NotificationPopup {
            notification_id: n.id,
            urgency: n.urgency,
            resident: n.resident,
            position,
            vertical_position: initial_vertical_position,
            measured_height: 0,
            phase: PopupPhase::Displaying,
            timer_ms: spec_effective_timeout_ms(n.expire_timeout, n.urgency, n.resident),
        }
    }

    /// Pointer entered: suspend the timer without sending any command.
    pub open spec fn spec_pointer_enter(self) -> NotificationPopup {
        if self.phase is Displaying || self.phase is CountingDown {
            NotificationPopup { phase: PopupPhase::Hovered, timer_ms: None, ..self }
        } else {
            self
        }
    }

    pub fn pointer_enter(&mut self)
        ensures
            *final(self) == old(self).spec_pointer_enter(),
    {
        match self.phase {
            PopupPhase::Displaying | PopupPhase::CountingDown => {
                self.phase = PopupPhase::Hovered;
                self.timer_ms = None;
            },
            _ => {},
        }
    }

    /// Pointer left: re-arm a fresh fallback timer keyed only by urgency,
    /// independent of the original `expire_timeout` — unless the popup is
    /// resident, which never re-arms on hover-exit.
    pub open spec fn spec_pointer_leave(self) -> NotificationPopup {
        if self.phase is Hovered {
            if self.resident {
                NotificationPopup { phase: PopupPhase::Displaying, timer_ms: None, ..self }
            } else {
                NotificationPopup {
                    phase: PopupPhase::CountingDown,
                    timer_ms: Some(spec_fallback_timeout_ms(self.urgency)),
                    ..self
                }
            }
        } else {
            self
        }
    }

    pub fn pointer_leave(&mut self)
        ensures
            *final(self) == old(self).spec_pointer_leave(),
    {
        match self.phase {
            PopupPhase::Hovered => {
                if self.resident {
                    self.phase = PopupPhase::Displaying;
                    self.timer_ms = None;
                } else {
                    self.phase = PopupPhase::CountingDown;
                    self.timer_ms = Some(fallback_timeout_ms(self.urgency));
                }
            },
            _ => {},
        }
    }

    /// The armed timer fired: enter `Closing` and ask the orchestrator to
    /// close this popup — exactly once, latched by the closing gate. A stale
    /// fire (timer already cancelled or close already under way) does nothing.
    pub fn timer_fire(&mut self) -> (cmd: Option<PopupCommand>)
        ensures
            ({
                let armed = (old(self).phase is Displaying || old(self).phase is CountingDown)
                    && old(self).timer_ms is Some;
                &&& armed ==> *final(self) == (NotificationPopup {
                    phase: PopupPhase::Closing,
                    timer_ms: None,
                    ..*old(self)
                }) && cmd == Some(PopupCommand::Close(old(self).notification_id))
                &&& !armed ==> *final(self) == *old(self) && cmd is None
            }),
    {
        match self.phase {
            PopupPhase::Displaying | PopupPhase::CountingDown => {
                if self.timer_ms.is_some() {
                    self.phase = PopupPhase::Closing;
                    self.timer_ms = None;
                    Some(PopupCommand::Close(self.notification_id))
                } else {
                    None
                }
            },
            _ => None,
        }
    }

    /// The user clicked the close button: report `Close` to the orchestrator,
    /// at most once per popup.
    pub fn user_close(&mut self) -> (cmd: Option<PopupCommand>)
        ensures
            !old(self).spec_is_closing() ==> *final(self) == (NotificationPopup {
                phase: PopupPhase::Closing,
                ..*old(self)
            }) && cmd == Some(PopupCommand::Close(old(self).notification_id)),
            old(self).spec_is_closing() ==> *final(self) == *old(self) && cmd is None,
    {
        if self.is_closing() {
            None
        } else {
            self.phase = PopupPhase::Closing;
            Some(PopupCommand::Close(self.notification_id))
        }
    }

    /// The user clicked an action button: report `ActionInvoked` with the
    /// action's key, at most once per popup.
    pub fn action_clicked(&mut self, key: String) -> (cmd: Option<PopupCommand>)
        ensures
            !old(self).spec_is_closing() ==> *final(self) == (NotificationPopup {
                phase: PopupPhase::Closing,
                ..*old(self)
            }) && cmd == Some(PopupCommand::ActionInvoked(old(self).notification_id, key)),
            old(self).spec_is_closing() ==> *final(self) == *old(self) && cmd is None,
    {
        if self.is_closing() {
            None
        } else {
            self.phase = PopupPhase::Closing;
            Some(PopupCommand::ActionInvoked(self.notification_id, key))
        }
    }

    /// Orchestrator-driven close (explicit close, action, or replacement):
    /// enter `Closing`, cancel the timer, and say whether this call began the
    /// close sequence — `true` at most once over the popup's life, so at most
    /// one exit animation and destroy guard is ever scheduled.
    pub fn close_popup(&mut self) -> (started: bool)
        ensures
            !old(self).spec_is_closing() ==> *final(self) == (NotificationPopup {
                phase: PopupPhase::Closing,
                timer_ms: None,
                ..*old(self)
            }) && started,
            old(self).spec_is_closing() ==> *final(self) == *old(self) && !started,
    {
        if self.is_closing() {
            false
        } else {
            self.phase = PopupPhase::Closing;
            self.timer_ms = None;
            true
        }
    }

    /// The exit transition finished (or the stuck-window guard fired): the
    /// popup is gone and every timer is torn down.
    pub fn destroy(&mut self)
        ensures
            *final(self) == (NotificationPopup {
                phase: PopupPhase::Destroyed,
                timer_ms: None,
                ..*old(self)
            }),
    {
        self.phase = PopupPhase::Destroyed;
        self.timer_ms = None;
    }

    /// Moves the popup to a new stacking offset.
    pub fn set_vertical_position(&mut self, position: i32)
        ensures
            *final(self) == (NotificationPopup { vertical_position: position, ..*old(self) }),
    {
        self.vertical_position = position;
    }

    /// Records the height the shell measured for the popup's window.
    pub fn set_measured_height(&mut self, height: i32)
        ensures
            *final(self) == (NotificationPopup { measured_height: height, ..*old(self) }),
    {
        self.measured_height = height;
    }
}

/// Folds a sequence of hover events (`true` = pointer enter, `false` =
/// pointer leave) over a popup.
pub open spec fn spec_run_hover(p: NotificationPopup, events: Seq<bool>) -> NotificationPopup
    decreases events.len(),
{
    if events.len() == 0 {
        p
    } else if events[0] {
        spec_run_hover(p.spec_pointer_enter(), events.drop_first())
    } else {
        spec_run_hover(p.spec_pointer_leave(), events.drop_first())
    }
}

/// Law: a resident popup whose notification asked for the server default
/// (any negative `expire_timeout`) never arms a timer, however the pointer
/// enters and leaves it — so no timer ever fires and it never auto-closes.
pub proof fn lemma_resident_never_auto_closes(p: NotificationPopup, events: Seq<bool>)
    requires
        p.resident,
        p.timer_ms is None,
        !p.spec_is_closing(),
    ensures
        spec_run_hover(p, events).timer_ms is None,
        !spec_run_hover(p, events).spec_is_closing(),
    decreases events.len(),
{
    if events.len() > 0 {
        if events[0] {
            lemma_resident_never_auto_closes(p.spec_pointer_enter(), events.drop_first());
        } else {
            lemma_resident_never_auto_closes(p.spec_pointer_leave(), events.drop_first());
        }
    }
}

/// Law: pointer traffic alone never closes a popup — however the pointer
/// enters and leaves, the popup stays out of `Closing`, so an auto-close can
/// only come from its timer (and a removal only from the orchestrator).
pub proof fn lemma_hover_never_closes(p: NotificationPopup, events: Seq<bool>)
    requires
        !p.spec_is_closing(),
    ensures
        !spec_run_hover(p, events).spec_is_closing(),
    decreases events.len(),
{
    if events.len() > 0 {
        if events[0] {
            lemma_hover_never_closes(p.spec_pointer_enter(), events.drop_first());
        } else {
            lemma_hover_never_closes(p.spec_pointer_leave(), events.drop_first());
        }
    }
}

} // verus!
