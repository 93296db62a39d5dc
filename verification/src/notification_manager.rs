//! The orchestrator: single owner of the visible popups, their stacking
//! order, and the notification history.
//!
//! It consumes two streams — new notifications and popup commands — and for
//! each event says how the popup set, the order and the history change, which
//! popups begin their exit, and which bus signals are owed. The shell runs
//! the loop, renders the popups, and emits the signals.

use vstd::prelude::*;

use crate::config::NotificationPosition;
use crate::notification::Notification;
use crate::notification_popup::NotificationPopup;
use crate::notification_popup::PopupCommand;
use crate::notification_popup::PopupPhase;
use crate::notification_server::CLOSE_REASON_DISMISSED;
use crate::notification_server::CLOSE_REASON_EXPIRED;
use crate::notification_server::SignalRequest;
use crate::notification_server::spec_drop_id;
use crate::notification_server::spec_other_id;
use crate::seq_util::lemma_filter_all_true;
use crate::seq_util::lemma_filter_membership;
use crate::seq_util::lemma_filter_no_duplicates;
use crate::seq_util::lemma_filter_remove_match;

verus! {

/// Margin between the screen edge and the first popup, in pixels.
pub const BASE_MARGIN_TOP: i32 = 10;

/// Vertical gap between stacked popups, in pixels.
pub const SPACING: i32 = 10;

/// The orchestrator's state. `order` is the top-to-bottom stacking order;
/// `popups` holds one popup per ordered id, aligned with `order`.
#[derive(Debug)]
pub struct NotificationManager {
    pub popups: Vec<NotificationPopup>,
    pub order: Vec<u32>,
    pub history: Vec<Notification>,
    /// The screen corner popups anchor to; flows into popup construction only.
    pub position: NotificationPosition,
}

/// What the orchestrator asks the shell to do after an event: play the exit
/// transition of these popups (already latched closing), and emit these bus
/// signals, in this order. After any event that changed the history, the
/// shell also persists it, off the event loop.
#[derive(Debug)]
pub struct CommandEffects {
    pub signals: Vec<SignalRequest>,
    pub closed: Vec<NotificationPopup>,
}

/// The ids of a popup sequence, in stacking order.
pub open spec fn spec_ids_of(popups: Seq<NotificationPopup>) -> Seq<u32> {
    popups.map_values(|p: NotificationPopup| p.notification_id)
}

/// The predicate that keeps a popup: it carries an id other than `id`.
pub open spec fn spec_popup_other_id(id: u32) -> spec_fn(NotificationPopup) -> bool {
    |p: NotificationPopup| p.notification_id != id
}

/// The popups left after dropping the one keyed by `id`.
pub open spec fn spec_drop_popup(popups: Seq<NotificationPopup>, id: u32) -> Seq<
    NotificationPopup,
> {
    popups.filter(spec_popup_other_id(id))
}

/// Whether some popup is keyed by `id`.
pub open spec fn spec_has_popup(popups: Seq<NotificationPopup>, id: u32) -> bool {
    exists|i: int| 0 <= i < popups.len() && popups[i].notification_id == id
}

/// The first popup keyed by `id`, if any.
pub open spec fn spec_find_popup(popups: Seq<NotificationPopup>, id: u32) -> Option<
    NotificationPopup,
>
    decreases popups.len(),
{
    if popups.len() == 0 {
        None
    } else if popups[0].notification_id == id {
        Some(popups[0])
    } else {
        spec_find_popup(popups.drop_first(), id)
    }
}

/// A popup as it stands once its close sequence has begun.
pub open spec fn spec_closing_popup(p: NotificationPopup) -> NotificationPopup {
    if p.spec_is_closing() {
        p
    } else {
        NotificationPopup { phase: PopupPhase::Closing, timer_ms: None, ..p }
    }
}

/// The history after erasing the first record under `id` (the orchestrator
/// never keeps a second one).
pub open spec fn spec_erase_history(history: Seq<Notification>, id: u32) -> Seq<Notification>
    decreases history.len(),
{
    if history.len() == 0 {
        history
    } else if history[0].id == id {
        history.drop_first()
    } else {
        seq![history[0]] + spec_erase_history(history.drop_first(), id)
    }
}

/// Vertical room one popup takes in the stack: its measured height, or a
/// one-pixel placeholder while it has none, plus the gap below it.
pub open spec fn spec_popup_slot(p: NotificationPopup) -> int {
    (if p.measured_height >= 1 {
        p.measured_height as int
    } else {
        1
    }) + SPACING as int
}

/// Total vertical room a popup stack takes.
pub open spec fn spec_stack_total(popups: Seq<NotificationPopup>) -> int
    decreases popups.len(),
{
    if popups.len() == 0 {
        0
    } else {
        spec_stack_total(popups.drop_last()) + spec_popup_slot(popups.last())
    }
}

/// The target offset of the popup at position `i` of the stack.
pub open spec fn spec_offset_of(popups: Seq<NotificationPopup>, i: int) -> int {
    BASE_MARGIN_TOP + spec_stack_total(popups.take(i))
}

/// Whether every offset of the stack, and the offset a popup appended to it
/// would get, stays representable.
pub open spec fn spec_stack_fits(popups: Seq<NotificationPopup>) -> bool {
    BASE_MARGIN_TOP + spec_stack_total(popups) <= i32::MAX
}

/// The layout pass: every popup moved to its target offset, derived from the
/// order alone.
pub open spec fn spec_layout(popups: Seq<NotificationPopup>) -> Seq<NotificationPopup> {
    Seq::new(
        popups.len(),
        |i: int|
            NotificationPopup {
                vertical_position: spec_offset_of(popups, i) as i32,
                ..popups[i]
            },
    )
}

/// Each popup's slot is at least the gap plus one pixel.
pub proof fn lemma_stack_total_nonneg(popups: Seq<NotificationPopup>)
    ensures
        spec_stack_total(popups) >= 0,
    decreases popups.len(),
{
    if popups.len() > 0 {
        lemma_stack_total_nonneg(popups.drop_last());
    }
}

/// Appending a popup grows the total by its slot.
pub proof fn lemma_stack_total_push(popups: Seq<NotificationPopup>, p: NotificationPopup)
    ensures
        spec_stack_total(popups.push(p)) == spec_stack_total(popups) + spec_popup_slot(p),
{
    assert(popups.push(p).drop_last() == popups);
}

/// A prefix of the stack never takes more room than the whole stack.
pub proof fn lemma_stack_total_take(popups: Seq<NotificationPopup>, k: int)
    requires
        0 <= k <= popups.len(),
    ensures
        spec_stack_total(popups.take(k)) <= spec_stack_total(popups),
    decreases popups.len(),
{
    if k == popups.len() {
        assert(popups.take(k) == popups);
    } else if popups.len() > 0 {
        assert(popups.drop_last().take(k) == popups.take(k));
        lemma_stack_total_take(popups.drop_last(), k);
        lemma_stack_total_nonneg(popups.take(k));
    }
}

/// Dropping popups never grows the stack.
pub proof fn lemma_stack_total_filter(
    popups: Seq<NotificationPopup>,
    pred: spec_fn(NotificationPopup) -> bool,
)
    ensures
        spec_stack_total(popups.filter(pred)) <= spec_stack_total(popups),
    decreases popups.len(),
{
    reveal(Seq::filter);
    if popups.len() > 0 {
        lemma_stack_total_filter(popups.drop_last(), pred);
        if pred(popups.last()) {
            lemma_stack_total_push(popups.drop_last().filter(pred), popups.last());
        }
    }
}

/// Two stacks of popups with the same heights take the same room.
pub proof fn lemma_stack_total_same_slots(a: Seq<NotificationPopup>, b: Seq<NotificationPopup>)
    requires
        a.len() == b.len(),
        forall|i: int| 0 <= i < a.len() ==> spec_popup_slot(a[i]) == spec_popup_slot(b[i]),
    ensures
        spec_stack_total(a) == spec_stack_total(b),
    decreases a.len(),
{
    if a.len() > 0 {
        lemma_stack_total_same_slots(a.drop_last(), b.drop_last());
    }
}

/// The layout pass keeps every popup's identity, phase, timer and height:
/// only `vertical_position` moves.
pub proof fn lemma_layout_shape(popups: Seq<NotificationPopup>)
    ensures
        spec_layout(popups).len() == popups.len(),
        spec_ids_of(spec_layout(popups)) == spec_ids_of(popups),
        spec_stack_total(spec_layout(popups)) == spec_stack_total(popups),
        forall|i: int|
            0 <= i < popups.len() ==> (#[trigger] spec_layout(popups)[i]) == (NotificationPopup {
                vertical_position: spec_layout(popups)[i].vertical_position,
                ..popups[i]
            }),
{
    assert(spec_ids_of(spec_layout(popups)) =~= spec_ids_of(popups));
    lemma_stack_total_same_slots(spec_layout(popups), popups);
}

/// The popups left once a notification for `n` comes in: without the one it
/// replaces and without any earlier popup under its own id.
pub open spec fn spec_display_popups_mid(popups: Seq<NotificationPopup>, n: Notification) -> Seq<
    NotificationPopup,
> {
    let p1 = if n.replaces_id != 0 {
        spec_drop_popup(popups, n.replaces_id)
    } else {
        popups
    };
    spec_drop_popup(p1, n.id)
}

/// The popup a displayed notification gets: constructed at the offset just
/// below the popups that stay.
pub open spec fn spec_display_new_popup(
    popups: Seq<NotificationPopup>,
    position: NotificationPosition,
    n: Notification,
) -> NotificationPopup {
    NotificationPopup::spec_new(
        n,
        (BASE_MARGIN_TOP + spec_stack_total(spec_display_popups_mid(popups, n))) as i32,
        position,
    )
}

/// The popup set after displaying `n`, before the layout pass.
pub open spec fn spec_display_popups(
    popups: Seq<NotificationPopup>,
    position: NotificationPosition,
    n: Notification,
) -> Seq<NotificationPopup> {
    spec_display_popups_mid(popups, n).push(spec_display_new_popup(popups, position, n))
}

/// The stacking order after displaying `n`: replaced and superseded ids leave,
/// the new id is appended.
pub open spec fn spec_display_order(order: Seq<u32>, n: Notification) -> Seq<u32> {
    let o1 = if n.replaces_id != 0 {
        spec_drop_id(order, n.replaces_id)
    } else {
        order
    };
    spec_drop_id(o1, n.id).push(n.id)
}

/// The history after displaying `n`: records under the replaced and
/// superseded ids leave, `n` is appended.
pub open spec fn spec_display_history(history: Seq<Notification>, n: Notification) -> Seq<
    Notification,
> {
    let h1 = if n.replaces_id != 0 {
        spec_erase_history(history, n.replaces_id)
    } else {
        history
    };
    spec_erase_history(h1, n.id).push(n)
}

/// The popups a display asks the shell to animate out: the replaced one, then
/// any earlier popup under the new id, each with its close latched.
pub open spec fn spec_display_closed(popups: Seq<NotificationPopup>, n: Notification) -> Seq<
    NotificationPopup,
> {
    let replaced = if n.replaces_id != 0 {
        match spec_find_popup(popups, n.replaces_id) {
            Some(p) => seq![spec_closing_popup(p)],
            None => Seq::<NotificationPopup>::empty(),
        }
    } else {
        Seq::<NotificationPopup>::empty()
    };
    let p1 = if n.replaces_id != 0 {
        spec_drop_popup(popups, n.replaces_id)
    } else {
        popups
    };
    let superseded = match spec_find_popup(p1, n.id) {
        Some(p) => seq![spec_closing_popup(p)],
        None => Seq::<NotificationPopup>::empty(),
    };
    replaced + superseded
}

/// The popups left after a command removed the one under `id`, reflowed — or
/// the set untouched when no popup carries `id`.
pub open spec fn spec_popups_after_removal(popups: Seq<NotificationPopup>, id: u32) -> Seq<
    NotificationPopup,
> {
    if spec_has_popup(popups, id) {
        spec_layout(spec_drop_popup(popups, id))
    } else {
        popups
    }
}

impl NotificationManager {

    /// The orchestrator's invariant: the stacking order lists exactly the ids
    /// of the popups, in their order, without duplicates, and the stack's
    /// offsets stay representable.
    pub open spec fn wf(self) -> bool {
        &&& self.order@ == spec_ids_of(self.popups@)
        &&& self.order@.no_duplicates()
        &&& spec_stack_fits(self.popups@)
    }

    /// A fresh orchestrator over a previously persisted history.
    pub fn new(position: NotificationPosition, history: Vec<Notification>) -> (m:
        NotificationManager)
        ensures
            m.wf(),
            m.popups@ =~= Seq::<NotificationPopup>::empty(),
            m.order@ =~= Seq::<u32>::empty(),
            m.history == history,
            m.position == position,
    {
        let m = NotificationManager {
            popups: Vec::new(),
            order: Vec::new(),
            history,
            position,
        };
        proof {
            assert(m.order@ =~= spec_ids_of(m.popups@));
        }
        m
    }

    /// The layout pass: walks the stacking order and moves every popup to the
    /// offset that the heights of the popups above it dictate. Deterministic
    /// in `order`, so re-running it after any mutation always converges to the
    /// same positions.
    pub fn recalculate_positions(&mut self)
        requires
            spec_stack_fits(old(self).popups@),
        ensures
            final(self).popups@ == spec_layout(old(self).popups@),
            final(self).order == old(self).order,
            final(self).history == old(self).history,
            final(self).position == old(self).position,
            old(self).wf() ==> final(self).wf(),
    {
        let ghost orig = self.popups@;
        let mut out: Vec<NotificationPopup> = Vec::new();
        let mut y: i32 = BASE_MARGIN_TOP;
        let mut i: usize = 0;
        proof {
            assert(orig.take(0) =~= Seq::<NotificationPopup>::empty());
            assert(out@ =~= spec_layout(orig).take(0));
        }
        while i < self.popups.len()
            invariant
                0 <= i <= orig.len(),
                self.popups@ == orig,
                spec_stack_fits(orig),
                out@ == spec_layout(orig).take(i as int),
                y as int == spec_offset_of(orig, i as int),
            decreases orig.len() - i,
        {
            proof {
                lemma_stack_total_take(orig, i as int);
                lemma_stack_total_nonneg(orig.take(i as int));
                assert(orig.take(i + 1) == orig.take(i as int).push(orig[i as int]));
                lemma_stack_total_push(orig.take(i as int), orig[i as int]);
                lemma_stack_total_take(orig, i + 1);
            }
            let mut p = self.popups[i];
            p.set_vertical_position(y);
            out.push(p);
            let height = p.measured_height;
            let slot = if height >= 1 {
                height
            } else {
                1
            };
            y = y + slot + SPACING;
            i = i + 1;
            proof {
                assert(out@ =~= spec_layout(orig).take(i as int));
            }
        }
        proof {
            assert(spec_layout(orig).take(orig.len() as int) == spec_layout(orig));
        }
        self.popups = out;
        proof {
            if old(self).wf() {
                lemma_layout_shape(orig);
            }
        }
    }

    /// The offset just below the current stack: where the next popup starts.
    pub fn stack_bottom(&self) -> (y: i32)
        requires
            spec_stack_fits(self.popups@),
        ensures
            y as int == BASE_MARGIN_TOP + spec_stack_total(self.popups@),
    {
        let ghost orig = self.popups@;
        let mut y: i32 = BASE_MARGIN_TOP;
        let mut i: usize = 0;
        proof {
            assert(orig.take(0) =~= Seq::<NotificationPopup>::empty());
        }
        while i < self.popups.len()
            invariant
                0 <= i <= orig.len(),
                self.popups@ == orig,
                spec_stack_fits(orig),
                y as int == BASE_MARGIN_TOP + spec_stack_total(orig.take(i as int)),
            decreases orig.len() - i,
        {
            proof {
                lemma_stack_total_take(orig, i as int);
                lemma_stack_total_nonneg(orig.take(i as int));
                assert(orig.take(i + 1) == orig.take(i as int).push(orig[i as int]));
                lemma_stack_total_push(orig.take(i as int), orig[i as int]);
                lemma_stack_total_take(orig, i + 1);
            }
            let height = self.popups[i].measured_height;
            let slot = if height >= 1 {
                height
            } else {
                1
            };
            y = y + slot + SPACING;
            i = i + 1;
        }
        proof {
            assert(orig.take(orig.len() as int) == orig);
        }
        y
    }

    /// Whether the current stack's offsets stay representable: what
    /// `recalculate_positions` asks of its caller, testable at run time.
    pub fn layout_fits(&self) -> (r: bool)
        ensures
            r == spec_stack_fits(self.popups@),
    {
        let ghost orig = self.popups@;
        let mut y: i64 = BASE_MARGIN_TOP as i64;
        let mut i: usize = 0;
        proof {
            assert(orig.take(0) =~= Seq::<NotificationPopup>::empty());
        }
        while i < self.popups.len()
            invariant
                0 <= i <= orig.len(),
                self.popups@ == orig,
                y as int == BASE_MARGIN_TOP + spec_stack_total(orig.take(i as int)),
                y <= i32::MAX as i64,
            decreases orig.len() - i,
        {
            proof {
                assert(orig.take(i + 1) == orig.take(i as int).push(orig[i as int]));
                lemma_stack_total_push(orig.take(i as int), orig[i as int]);
            }
            let height = self.popups[i].measured_height;
            let slot: i64 = (if height >= 1 {
                height
            } else {
                1
            }) as i64 + SPACING as i64;
            y = y + slot;
            i = i + 1;
            if y > i32::MAX as i64 {
                proof {
                    lemma_stack_total_take(orig, i as int);
                }
                return false;
            }
        }
        proof {
            assert(orig.take(orig.len() as int) == orig);
        }
        true
    }

    /// Whether displaying `n` surely keeps the stack's offsets representable:
    /// sufficient for `display_notification`'s arithmetic precondition, judged
    /// without removing anything (removal only shrinks the stack).
    pub fn display_would_fit(&self, n: &Notification) -> (r: bool)
        ensures
            r ==> self.spec_display_fits(*n),
    {
        let ghost orig = self.popups@;
        // The new popup starts unmeasured: a one-pixel placeholder and the gap.
        let mut y: i64 = BASE_MARGIN_TOP as i64 + 11;
        let mut i: usize = 0;
        proof {
            assert(orig.take(0) =~= Seq::<NotificationPopup>::empty());
        }
        while i < self.popups.len()
            invariant
                0 <= i <= orig.len(),
                self.popups@ == orig,
                y as int == BASE_MARGIN_TOP + 11 + spec_stack_total(orig.take(i as int)),
                y <= i32::MAX as i64,
            decreases orig.len() - i,
        {
            proof {
                assert(orig.take(i + 1) == orig.take(i as int).push(orig[i as int]));
                lemma_stack_total_push(orig.take(i as int), orig[i as int]);
            }
            let height = self.popups[i].measured_height;
            let slot: i64 = (if height >= 1 {
                height
            } else {
                1
            }) as i64 + SPACING as i64;
            y = y + slot;
            i = i + 1;
            if y > i32::MAX as i64 {
                return false;
            }
        }
        proof {
            assert(orig.take(orig.len() as int) == orig);
            let p1 = if n.replaces_id != 0 {
                spec_drop_popup(orig, n.replaces_id)
            } else {
                orig
            };
            let p2 = self.spec_popups_mid(*n);
            if n.replaces_id != 0 {
                lemma_stack_total_filter(orig, spec_popup_other_id(n.replaces_id));
            }
            lemma_stack_total_filter(p1, spec_popup_other_id(n.id));
            lemma_stack_total_push(p2, self.spec_new_popup(*n));
            assert(spec_popup_slot(self.spec_new_popup(*n)) == 11);
        }
        true
    }

    /// Removes the popup keyed by `id` from the set and the stacking order,
    /// handing it back for its exit.
    fn take_popup(&mut self, id: u32) -> (r: Option<NotificationPopup>)
        ensures
            final(self).popups@ == spec_drop_popup(old(self).popups@, id),
            final(self).order@ == spec_drop_id(old(self).order@, id),
            r == spec_find_popup(old(self).popups@, id),
            final(self).history == old(self).history,
            final(self).position == old(self).position,
    {
        let r = match find_popup_index(&self.popups, id) {
            Some(i) => {
                proof {
                    lemma_find_popup_at(self.popups@, id, i as int);
                }
                Some(self.popups[i])
            },
            None => {
                proof {
                    lemma_find_popup_none(self.popups@, id);
                }
                None
            },
        };
        drop_popup_vec(&mut self.popups, id);
        drop_order_id(&mut self.order, id);
        r
    }

    /// The popups left once a notification for `n` comes in: without the one
    /// it replaces and without any earlier popup under its own id.
    pub open spec fn spec_popups_mid(self, n: Notification) -> Seq<NotificationPopup> {
        spec_display_popups_mid(self.popups@, n)
    }

    /// The popup a displayed notification gets: constructed at the offset just
    /// below the popups that stay.
    pub open spec fn spec_new_popup(self, n: Notification) -> NotificationPopup {
        spec_display_new_popup(self.popups@, self.position, n)
    }

    /// The popup set after displaying `n`, before the layout pass.
    pub open spec fn spec_popups_after_display(self, n: Notification) -> Seq<NotificationPopup> {
        spec_display_popups(self.popups@, self.position, n)
    }

    /// Whether the stack stays representable with `n`'s popup appended — all
    /// that machine arithmetic asks of a display.
    pub open spec fn spec_display_fits(self, n: Notification) -> bool {
        spec_stack_fits(self.spec_popups_after_display(n))
    }

    /// The stacking order after displaying `n`: replaced and superseded ids
    /// leave, the new id is appended.
    pub open spec fn spec_order_after_display(self, n: Notification) -> Seq<u32> {
        spec_display_order(self.order@, n)
    }

    /// The history after displaying `n`: records under the replaced and
    /// superseded ids leave, `n` is appended.
    pub open spec fn spec_history_after_display(self, n: Notification) -> Seq<Notification> {
        spec_display_history(self.history@, n)
    }

    /// The popups a display asks the shell to animate out: the replaced one,
    /// then any earlier popup under the new id, each with its close latched.
    pub open spec fn spec_closed_by_display(self, n: Notification) -> Seq<NotificationPopup> {
        spec_display_closed(self.popups@, n)
    }

    /// A new notification arrives: any popup it replaces and any popup already
    /// under its id leave (their exits are handed back), their history records
    /// are erased, `n` joins the history and the stack's tail, and the layout
    /// pass moves everything to its place.
    pub fn display_notification(&mut self, n: Notification) -> (fx: Vec<NotificationPopup>)
        requires
            old(self).wf(),
            old(self).spec_display_fits(n),
        ensures
            final(self).wf(),
            final(self).popups@ == spec_layout(old(self).spec_popups_after_display(n)),
            final(self).order@ == old(self).spec_order_after_display(n),
            final(self).history@ == old(self).spec_history_after_display(n),
            final(self).position == old(self).position,
            fx@ == old(self).spec_closed_by_display(n),
    {
        let mut fx: Vec<NotificationPopup> = Vec::new();
        let rid = n.replaces_id;
        if rid != 0 {
            match self.take_popup(rid) {
                Some(mut p) => {
                    let _ = p.close_popup();
                    fx.push(p);
                },
                None => {},
            }
            erase_history_id(&mut self.history, rid);
        }
        match self.take_popup(n.id) {
            Some(mut p) => {
                let _ = p.close_popup();
                fx.push(p);
            },
            None => {},
        }
        erase_history_id(&mut self.history, n.id);

        proof {
            lemma_stack_total_push(old(self).spec_popups_mid(n), old(self).spec_new_popup(n));
            lemma_stack_total_nonneg(old(self).spec_popups_mid(n));
        }
        let offset = self.stack_bottom();
        let popup = NotificationPopup::new(&n, offset, self.position);
        self.popups.push(popup);
        self.order.push(n.id);
        self.history.push(n);

        proof {
            assert(self.popups@ == old(self).spec_popups_after_display(n));
        }
        self.recalculate_positions();

        proof {
            lemma_display_preserves_wf(old(self).model(), old(self).position, n);
            lemma_layout_shape(old(self).spec_popups_after_display(n));
        }
        fx
    }

    /// The set of popups after a popup command for `id`: nothing changes
    /// unless the popup is present.
    pub open spec fn spec_popups_after_command(self, id: u32) -> Seq<NotificationPopup> {
        spec_popups_after_removal(self.popups@, id)
    }

    /// A popup reported an event: for `ActionInvoked`, the `ActionInvoked`
    /// signal is owed first, always, even if the popup is already gone. If the
    /// popup is present it leaves the set, the order and the history, its exit
    /// is handed back, one `NotificationClosed` is owed — reason 1 for a plain
    /// close, reason 2 after an action — and the layout pass reflows the rest.
    /// A command for an absent id changes nothing more: closing is idempotent.
    pub fn handle_popup_command(&mut self, cmd: PopupCommand) -> (fx: CommandEffects)
        requires
            old(self).wf(),
        ensures
            final(self).wf(),
            final(self).popups@ == old(self).spec_popups_after_command(spec_command_id(cmd)),
            final(self).order@ == spec_drop_id(old(self).order@, spec_command_id(cmd)),
            final(self).history@ == (if spec_has_popup(
                old(self).popups@,
                spec_command_id(cmd),
            ) {
                spec_erase_history(old(self).history@, spec_command_id(cmd))
            } else {
                old(self).history@
            }),
            final(self).position == old(self).position,
            fx.signals@ == spec_command_signals(old(self).popups@, cmd),
            fx.closed@ == (match spec_find_popup(old(self).popups@, spec_command_id(cmd)) {
                Some(p) => seq![spec_closing_popup(p)],
                None => Seq::<NotificationPopup>::empty(),
            }),
    {
        let mut signals: Vec<SignalRequest> = Vec::new();
        let mut closed: Vec<NotificationPopup> = Vec::new();
        let id = match &cmd {
            PopupCommand::Close(id) => *id,
            PopupCommand::ActionInvoked(id, _) => *id,
        };
        let reason = match &cmd {
            PopupCommand::Close(_) => CLOSE_REASON_EXPIRED,
            PopupCommand::ActionInvoked(_, _) => CLOSE_REASON_DISMISSED,
        };
        match cmd {
            PopupCommand::Close(_) => {},
            PopupCommand::ActionInvoked(_, key) => {
                signals.push(SignalRequest::ActionInvoked { id, action_key: key });
            },
        }
        proof {
            lemma_find_popup_none(old(self).popups@, id);
        }
        match self.take_popup(id) {
            Some(mut p) => {
                let _ = p.close_popup();
                closed.push(p);
                erase_history_id(&mut self.history, id);
                signals.push(SignalRequest::NotificationClosed { id, reason });
                proof {
                    lemma_stack_total_filter(old(self).popups@, spec_popup_other_id(id));
                }
                self.recalculate_positions();
                proof {
                    lemma_command_preserves_wf(old(self).model(), id);
                    lemma_layout_shape(spec_drop_popup(old(self).popups@, id));
                    assert(fx_signals_ok(old(self).popups@, cmd, signals@));
                }
            },
            None => {
                proof {
                    assert forall|j: int|
                        0 <= j < old(self).popups@.len() implies spec_popup_other_id(id)(
                        old(self).popups@[j],
                    ) by {}
                    lemma_filter_all_true(old(self).popups@, spec_popup_other_id(id));
                    lemma_command_preserves_wf(old(self).model(), id);
                    assert(fx_signals_ok(old(self).popups@, cmd, signals@));
                }
            },
        }
        CommandEffects { signals, closed }
    }
}

/// The id a popup command names.
pub open spec fn spec_command_id(cmd: PopupCommand) -> u32 {
    match cmd {
        PopupCommand::Close(id) => id,
        PopupCommand::ActionInvoked(id, _) => id,
    }
}

/// The `NotificationClosed` owed when a popup under `id` is removed by a
/// command with this reason.
pub open spec fn spec_removal_signals(popups: Seq<NotificationPopup>, id: u32, reason: u32) -> Seq<
    SignalRequest,
> {
    if spec_has_popup(popups, id) {
        seq![SignalRequest::NotificationClosed { id, reason }]
    } else {
        Seq::<SignalRequest>::empty()
    }
}

/// The bus signals a popup command asks for, in emission order: the action's
/// own signal first when one was invoked, then the close signal if a popup
/// was removed.
pub open spec fn spec_command_signals(popups: Seq<NotificationPopup>, cmd: PopupCommand) -> Seq<
    SignalRequest,
> {
    match cmd {
        PopupCommand::Close(id) => spec_removal_signals(popups, id, CLOSE_REASON_EXPIRED),
        PopupCommand::ActionInvoked(id, key) => seq![
            SignalRequest::ActionInvoked { id, action_key: key },
        ] + spec_removal_signals(popups, id, CLOSE_REASON_DISMISSED),
    }
}

/// Helper for relating the signal list a command built to its specification.
pub open spec fn fx_signals_ok(
    popups: Seq<NotificationPopup>,
    cmd: PopupCommand,
    signals: Seq<SignalRequest>,
) -> bool {
    signals =~= spec_command_signals(popups, cmd)
}

/// Law (idempotent close): a `Close(id)` for a displayed popup asks for
/// exactly one `NotificationClosed(id, 1)` and one exit; the state it leaves
/// turns every further `Close(id)` — however the two commands raced in — into
/// a no-op with no signal, no exit, and no change to the popup set, so at most
/// one close sequence ever runs per popup id.
pub proof fn lemma_close_idempotent(popups: Seq<NotificationPopup>, id: u32)
    requires
        spec_has_popup(popups, id),
    ensures
        spec_command_signals(popups, PopupCommand::Close(id)) =~= seq![
            SignalRequest::NotificationClosed { id, reason: CLOSE_REASON_EXPIRED },
        ],
        spec_find_popup(popups, id) is Some,
        !spec_has_popup(spec_popups_after_removal(popups, id), id),
        spec_command_signals(spec_popups_after_removal(popups, id), PopupCommand::Close(id))
            =~= Seq::<SignalRequest>::empty(),
        spec_find_popup(spec_popups_after_removal(popups, id), id) is None,
        spec_popups_after_removal(spec_popups_after_removal(popups, id), id)
            == spec_popups_after_removal(popups, id),
{
    lemma_find_popup_none(popups, id);
    let after = spec_popups_after_removal(popups, id);
    let dropped = spec_drop_popup(popups, id);
    lemma_filter_membership(popups, spec_popup_other_id(id));
    assert(!spec_has_popup(after, id)) by {
        if spec_has_popup(after, id) {
            let i = choose|i: int| 0 <= i < after.len() && after[i].notification_id == id;
            lemma_layout_shape(dropped);
            assert(after[i] == (NotificationPopup {
                vertical_position: after[i].vertical_position,
                ..dropped[i]
            }));
            assert(dropped.contains(dropped[i]));
        }
    }
    lemma_find_popup_none(after, id);
}

/// A ghost snapshot of the state the ordering invariant speaks about: the
/// popup set and the stacking order.
pub struct ManagerModel {
    pub popups: Seq<NotificationPopup>,
    pub order: Seq<u32>,
}

/// One inbound event of the orchestrator's loop.
pub enum ManagerEvent {
    Incoming(Notification),
    Command(PopupCommand),
}

/// The ordering invariant: the stacking order lists exactly the popup ids, in
/// order and without duplicates.
pub open spec fn model_wf(m: ManagerModel) -> bool {
    &&& m.order == spec_ids_of(m.popups)
    &&& m.order.no_duplicates()
}

impl NotificationManager {
    /// The snapshot of this orchestrator the ordering invariant speaks about.
    pub open spec fn model(self) -> ManagerModel {
        ManagerModel { popups: self.popups@, order: self.order@ }
    }
}

/// How a new notification moves the model: what `display_notification` does
/// to the popup set and the order.
pub open spec fn model_display(
    m: ManagerModel,
    position: NotificationPosition,
    n: Notification,
) -> ManagerModel {
    ManagerModel {
        popups: spec_layout(spec_display_popups(m.popups, position, n)),
        order: spec_display_order(m.order, n),
    }
}

/// How a popup command moves the model: what `handle_popup_command` does to
/// the popup set and the order.
pub open spec fn model_command(m: ManagerModel, id: u32) -> ManagerModel {
    ManagerModel {
        popups: spec_popups_after_removal(m.popups, id),
        order: spec_drop_id(m.order, id),
    }
}

/// One step of the orchestrator's loop over the model.
pub open spec fn model_step(
    m: ManagerModel,
    position: NotificationPosition,
    ev: ManagerEvent,
) -> ManagerModel {
    match ev {
        ManagerEvent::Incoming(n) => model_display(m, position, n),
        ManagerEvent::Command(cmd) => model_command(m, spec_command_id(cmd)),
    }
}

/// The model after the whole event sequence, first event first.
pub open spec fn model_run(
    m: ManagerModel,
    position: NotificationPosition,
    events: Seq<ManagerEvent>,
) -> ManagerModel
    decreases events.len(),
{
    if events.len() == 0 {
        m
    } else {
        model_run(model_step(m, position, events[0]), position, events.drop_first())
    }
}

/// Displaying a notification keeps the ordering invariant.
pub proof fn lemma_display_preserves_wf(
    m: ManagerModel,
    position: NotificationPosition,
    n: Notification,
)
    requires
        model_wf(m),
    ensures
        model_wf(model_display(m, position, n)),
{
    let rid = n.replaces_id;
    let p1 = if rid != 0 {
        spec_drop_popup(m.popups, rid)
    } else {
        m.popups
    };
    let o1 = if rid != 0 {
        spec_drop_id(m.order, rid)
    } else {
        m.order
    };
    let p2 = spec_drop_popup(p1, n.id);
    let o2 = spec_drop_id(o1, n.id);
    if rid != 0 {
        lemma_ids_drop_commute(m.popups, rid);
        lemma_filter_no_duplicates(m.order, spec_other_id(rid));
    }
    lemma_ids_drop_commute(p1, n.id);
    lemma_filter_no_duplicates(o1, spec_other_id(n.id));
    lemma_filter_membership(o1, spec_other_id(n.id));
    crate::seq_util::lemma_no_duplicates_push(o2, n.id);
    assert(spec_ids_of(p2.push(spec_display_new_popup(m.popups, position, n))) =~= spec_ids_of(
        p2,
    ).push(n.id));
    lemma_layout_shape(spec_display_popups(m.popups, position, n));
}

/// Handling a popup command keeps the ordering invariant.
pub proof fn lemma_command_preserves_wf(m: ManagerModel, id: u32)
    requires
        model_wf(m),
    ensures
        model_wf(model_command(m, id)),
{
    lemma_ids_drop_commute(m.popups, id);
    lemma_filter_no_duplicates(m.order, spec_other_id(id));
    if spec_has_popup(m.popups, id) {
        lemma_layout_shape(spec_drop_popup(m.popups, id));
    } else {
        assert forall|j: int| 0 <= j < m.popups.len() implies spec_popup_other_id(id)(
            m.popups[j],
        ) by {}
        lemma_filter_all_true(m.popups, spec_popup_other_id(id));
        assert forall|j: int| 0 <= j < m.order.len() implies spec_other_id(id)(m.order[j]) by {
            lemma_has_popup_ids(m.popups, id);
        }
        lemma_filter_all_true(m.order, spec_other_id(id));
    }
}

/// Law (ordering invariant): after any sequence of creates and closes, in any
/// interleaving, the stacking order has no duplicate ids and matches exactly
/// the key set of the popups.
pub proof fn lemma_order_invariant(
    m: ManagerModel,
    position: NotificationPosition,
    events: Seq<ManagerEvent>,
)
    requires
        model_wf(m),
    ensures
        model_wf(model_run(m, position, events)),
        model_run(m, position, events).order.no_duplicates(),
        forall|id: u32|
            model_run(m, position, events).order.contains(id) <==> spec_has_popup(
                model_run(m, position, events).popups,
                id,
            ),
    decreases events.len(),
{
    if events.len() > 0 {
        match events[0] {
            ManagerEvent::Incoming(n) => {
                lemma_display_preserves_wf(m, position, n);
            },
            ManagerEvent::Command(cmd) => {
                lemma_command_preserves_wf(m, spec_command_id(cmd));
            },
        }
        lemma_order_invariant(model_step(m, position, events[0]), position, events.drop_first());
    } else {
        assert forall|id: u32|
            m.order.contains(id) <==> spec_has_popup(m.popups, id) by {
            lemma_has_popup_ids(m.popups, id);
        }
    }
}

/// Law (replacement identity, orchestrator side): displaying a notification
/// leaves exactly one popup under its id — the new one, at the stack's tail —
/// whatever popup its `replaces_id` or its own id removed first.
pub proof fn lemma_display_single_popup(
    m: ManagerModel,
    position: NotificationPosition,
    n: Notification,
)
    requires
        model_wf(m),
    ensures
        model_display(m, position, n).order.len() > 0,
        model_display(m, position, n).order.last() == n.id,
        model_display(m, position, n).order.contains(n.id),
        forall|i: int, j: int|
            0 <= i < model_display(m, position, n).order.len() && 0 <= j < model_display(
                m,
                position,
                n,
            ).order.len() && model_display(m, position, n).order[i] == n.id && model_display(
                m,
                position,
                n,
            ).order[j] == n.id ==> i == j,
        spec_has_popup(model_display(m, position, n).popups, n.id),
{
    lemma_display_preserves_wf(m, position, n);
    let after = model_display(m, position, n);
    assert(after.order.last() == n.id);
    assert(after.order.contains(n.id));
    assert forall|i: int, j: int|
        0 <= i < after.order.len() && 0 <= j < after.order.len() && after.order[i] == n.id
            && after.order[j] == n.id implies i == j by {}
    lemma_has_popup_ids(after.popups, n.id);
}

/// Displaying a notification records it as the newest history entry.
pub proof fn lemma_display_records_history(history: Seq<Notification>, n: Notification)
    ensures
        spec_display_history(history, n).len() > 0,
        spec_display_history(history, n).last() == n,
{
}

/// The history ids, in order.
pub open spec fn spec_history_ids(history: Seq<Notification>) -> Seq<u32> {
    history.map_values(|n: Notification| n.id)
}

/// Erasing a history record keeps the remaining records and their unique ids.
pub proof fn lemma_erase_history_no_dup(history: Seq<Notification>, id: u32)
    requires
        spec_history_ids(history).no_duplicates(),
    ensures
        spec_history_ids(spec_erase_history(history, id)).no_duplicates(),
        forall|n: Notification|
            #[trigger] spec_erase_history(history, id).contains(n) ==> history.contains(n),
    decreases history.len(),
{
    let ids = spec_history_ids(history);
    if history.len() > 0 {
        let rest = history.drop_first();
        assert(spec_history_ids(rest) =~= ids.drop_first());
        assert(ids.drop_first().no_duplicates());
        lemma_erase_history_no_dup(rest, id);
        if history[0].id == id {
            assert forall|n: Notification|
                #[trigger] spec_erase_history(history, id).contains(n) implies history.contains(
                n,
            ) by {
                let i = choose|i: int| 0 <= i < rest.len() && rest[i] == n;
                assert(history[i + 1] == n);
            }
        } else {
            let erased = seq![history[0]] + spec_erase_history(rest, id);
            assert forall|n: Notification| #[trigger] erased.contains(n) implies history.contains(
                n,
            ) by {
                let i = choose|i: int| 0 <= i < erased.len() && erased[i] == n;
                if i == 0 {
                    assert(history[0] == n);
                } else {
                    assert(spec_erase_history(rest, id).contains(erased[i]));
                    let j = choose|j: int| 0 <= j < rest.len() && rest[j] == n;
                    assert(history[j + 1] == n);
                }
            }
            let eids = spec_history_ids(erased);
            assert(eids =~= seq![history[0].id] + spec_history_ids(spec_erase_history(rest, id)));
            assert forall|i: int, j: int|
                0 <= i < eids.len() && 0 <= j < eids.len() && i != j implies eids[i] != eids[j] by {
                if i == 0 && j > 0 {
                    lemma_erased_id_in_rest(rest, id, j - 1);
                    assert(ids[0] == history[0].id);
                } else if j == 0 && i > 0 {
                    lemma_erased_id_in_rest(rest, id, i - 1);
                    assert(ids[0] == history[0].id);
                }
            }
        }
    }
}

/// Every id among the erased records was an id among the originals.
proof fn lemma_erased_id_in_rest(rest: Seq<Notification>, id: u32, j: int)
    requires
        0 <= j < spec_erase_history(rest, id).len(),
    ensures
        spec_history_ids(rest).contains(spec_erase_history(rest, id)[j].id),
    decreases rest.len(),
{
    if rest.len() > 0 {
        if rest[0].id == id {
            assert(spec_erase_history(rest, id) == rest.drop_first());
            assert(spec_history_ids(rest)[j + 1] == rest.drop_first()[j].id);
        } else {
            if j == 0 {
                assert(spec_history_ids(rest)[0] == rest[0].id);
            } else {
                lemma_erased_id_in_rest(rest.drop_first(), id, j - 1);
                let rids = spec_history_ids(rest.drop_first());
                let k = choose|k: int|
                    0 <= k < rids.len() && rids[k] == spec_erase_history(rest.drop_first(), id)[j
                        - 1].id;
                assert(spec_history_ids(rest)[k + 1] == rids[k]);
            }
        }
    }
}

/// Law: the history the orchestrator builds keeps one record per id —
/// displaying erases the replaced and superseded records before appending,
/// and a close erases at most one record, so unique ids stay unique.
pub proof fn lemma_display_history_unique(history: Seq<Notification>, n: Notification)
    requires
        spec_history_ids(history).no_duplicates(),
    ensures
        spec_history_ids(spec_display_history(history, n)).no_duplicates(),
{
    let h1 = if n.replaces_id != 0 {
        spec_erase_history(history, n.replaces_id)
    } else {
        history
    };
    if n.replaces_id != 0 {
        lemma_erase_history_no_dup(history, n.replaces_id);
    }
    let h2 = spec_erase_history(h1, n.id);
    lemma_erase_history_no_dup(h1, n.id);
    lemma_erase_history_unique(h1, n.id);
    let ids2 = spec_history_ids(h2);
    assert(!ids2.contains(n.id)) by {
        if ids2.contains(n.id) {
            let i = choose|i: int| 0 <= i < ids2.len() && ids2[i] == n.id;
            assert(h2[i].id == n.id);
        }
    }
    crate::seq_util::lemma_no_duplicates_push(ids2, n.id);
    assert(spec_history_ids(h2.push(n)) =~= ids2.push(n.id));
}

/// In a history whose ids are unique — the only kind the orchestrator builds —
/// erasing an id leaves no record under it, and every other record stays.
pub proof fn lemma_erase_history_unique(history: Seq<Notification>, id: u32)
    requires
        spec_history_ids(history).no_duplicates(),
    ensures
        forall|i: int|
            0 <= i < spec_erase_history(history, id).len() ==> (
            #[trigger] spec_erase_history(history, id)[i]).id != id,
        forall|n: Notification|
            history.contains(n) && n.id != id ==> spec_erase_history(history, id).contains(n),
    decreases history.len(),
{
    let ids = spec_history_ids(history);
    if history.len() > 0 {
        let rest = history.drop_first();
        assert(spec_history_ids(rest) =~= ids.drop_first());
        assert(ids.drop_first().no_duplicates());
        lemma_erase_history_unique(rest, id);
        if history[0].id == id {
            // No later record can repeat the erased id.
            assert forall|i: int| 0 <= i < rest.len() implies rest[i].id != id by {
                assert(ids[0] == id);
                assert(ids[i + 1] == rest[i].id);
            }
            assert forall|n: Notification|
                history.contains(n) && n.id != id implies spec_erase_history(
                history,
                id,
            ).contains(n) by {
                let i = choose|i: int| 0 <= i < history.len() && history[i] == n;
                assert(rest[i - 1] == n);
            }
        } else {
            let erased = seq![history[0]] + spec_erase_history(rest, id);
            assert forall|i: int| 0 <= i < erased.len() implies erased[i].id != id by {
                if i > 0 {
                    assert(erased[i] == spec_erase_history(rest, id)[i - 1]);
                }
            }
            assert forall|n: Notification|
                history.contains(n) && n.id != id implies erased.contains(n) by {
                let i = choose|i: int| 0 <= i < history.len() && history[i] == n;
                if i == 0 {
                    assert(erased[0] == n);
                } else {
                    assert(rest[i - 1] == n);
                    assert(rest.contains(n));
                    assert(spec_erase_history(rest, id).contains(n));
                    let j = choose|j: int|
                        0 <= j < spec_erase_history(rest, id).len() && spec_erase_history(
                            rest,
                            id,
                        )[j] == n;
                    assert(erased[j + 1] == n);
                }
            }
        }
    }
}


/// A first match at `i`, with none before it, is what `spec_find_popup` finds.
proof fn lemma_find_popup_at(popups: Seq<NotificationPopup>, id: u32, i: int)
    requires
        0 <= i < popups.len(),
        popups[i].notification_id == id,
        forall|j: int| 0 <= j < i ==> popups[j].notification_id != id,
    ensures
        spec_find_popup(popups, id) == Some(popups[i]),
    decreases i,
{
    if i > 0 {
        lemma_find_popup_at(popups.drop_first(), id, i - 1);
    }
}

/// `spec_find_popup` finds something exactly when the id is there.
pub proof fn lemma_find_popup_none(popups: Seq<NotificationPopup>, id: u32)
    ensures
        spec_find_popup(popups, id) is None <==> !spec_has_popup(popups, id),
        spec_find_popup(popups, id) matches Some(p) ==> popups.contains(p)
            && p.notification_id == id,
    decreases popups.len(),
{
    if popups.len() > 0 {
        lemma_find_popup_none(popups.drop_first(), id);
        if popups[0].notification_id != id {
            let rest = popups.drop_first();
            assert(spec_has_popup(popups, id) <==> spec_has_popup(rest, id)) by {
                if spec_has_popup(popups, id) {
                    let i = choose|i: int|
                        0 <= i < popups.len() && popups[i].notification_id == id;
                    assert(rest[i - 1] == popups[i]);
                }
                if spec_has_popup(rest, id) {
                    let i = choose|i: int| 0 <= i < rest.len() && rest[i].notification_id == id;
                    assert(popups[i + 1] == rest[i]);
                }
            }
            match spec_find_popup(rest, id) {
                Some(p) => {
                    let i = choose|i: int| 0 <= i < rest.len() && rest[i] == p;
                    assert(popups[i + 1] == p);
                },
                None => {},
            }
        }
    }
}

/// Finds the first popup keyed by `id`.
fn find_popup_index(popups: &Vec<NotificationPopup>, id: u32) -> (r: Option<usize>)
    ensures
        match r {
            Some(i) => i < popups@.len() && popups@[i as int].notification_id == id && (forall|
                j: int,
            |
                0 <= j < i ==> popups@[j].notification_id != id),
            None => !spec_has_popup(popups@, id),
        },
{
    let mut i: usize = 0;
    while i < popups.len()
        invariant
            0 <= i <= popups@.len(),
            forall|j: int| 0 <= j < i ==> popups@[j].notification_id != id,
        decreases popups@.len() - i,
    {
        if popups[i].notification_id == id {
            return Some(i);
        }
        i = i + 1;
    }
    None
}

/// Removes every popup keyed by `id` (at most one under the invariant).
fn drop_popup_vec(popups: &mut Vec<NotificationPopup>, id: u32)
    ensures
        final(popups)@ == spec_drop_popup(old(popups)@, id),
{
    loop
        invariant
            spec_drop_popup(popups@, id) == spec_drop_popup(old(popups)@, id),
        decreases popups@.len(),
    {
        match find_popup_index(popups, id) {
            Some(i) => {
                proof {
                    lemma_filter_remove_match(popups@, spec_popup_other_id(id), i as int);
                }
                popups.remove(i);
            },
            None => {
                proof {
                    assert forall|j: int| 0 <= j < popups@.len() implies spec_popup_other_id(id)(
                        popups@[j],
                    ) by {}
                    lemma_filter_all_true(popups@, spec_popup_other_id(id));
                }
                return ;
            },
        }
    }
}

/// Finds the first occurrence of `id` in the stacking order.
fn find_order_index(order: &Vec<u32>, id: u32) -> (r: Option<usize>)
    ensures
        match r {
            Some(i) => i < order@.len() && order@[i as int] == id,
            None => !order@.contains(id),
        },
{
    let mut i: usize = 0;
    while i < order.len()
        invariant
            0 <= i <= order@.len(),
            forall|j: int| 0 <= j < i ==> order@[j] != id,
        decreases order@.len() - i,
    {
        if order[i] == id {
            return Some(i);
        }
        i = i + 1;
    }
    None
}

/// Removes every occurrence of `id` from the stacking order.
fn drop_order_id(order: &mut Vec<u32>, id: u32)
    ensures
        final(order)@ == spec_drop_id(old(order)@, id),
{
    loop
        invariant
            spec_drop_id(order@, id) == spec_drop_id(old(order)@, id),
        decreases order@.len(),
    {
        match find_order_index(order, id) {
            Some(i) => {
                proof {
                    lemma_filter_remove_match(order@, spec_other_id(id), i as int);
                }
                order.remove(i);
            },
            None => {
                proof {
                    assert forall|j: int| 0 <= j < order@.len() implies spec_other_id(id)(
                        order@[j],
                    ) by {
                        assert(order@.contains(order@[j]));
                    }
                    lemma_filter_all_true(order@, spec_other_id(id));
                }
                return ;
            },
        }
    }
}

/// Erasing at a first match is what `spec_erase_history` does.
proof fn lemma_erase_history_at(history: Seq<Notification>, id: u32, i: int)
    requires
        0 <= i < history.len(),
        history[i].id == id,
        forall|j: int| 0 <= j < i ==> history[j].id != id,
    ensures
        spec_erase_history(history, id) == history.remove(i),
    decreases i,
{
    if i == 0 {
        assert(history.remove(0) =~= history.drop_first());
    } else {
        lemma_erase_history_at(history.drop_first(), id, i - 1);
        assert(history.remove(i) =~= seq![history[0]] + history.drop_first().remove(i - 1));
    }
}

/// With no record under `id`, erasing changes nothing.
proof fn lemma_erase_history_none(history: Seq<Notification>, id: u32)
    requires
        forall|j: int| 0 <= j < history.len() ==> history[j].id != id,
    ensures
        spec_erase_history(history, id) == history,
    decreases history.len(),
{
    if history.len() > 0 {
        lemma_erase_history_none(history.drop_first(), id);
        assert(seq![history[0]] + history.drop_first() =~= history);
    }
}

/// Erases the first history record under `id`, if any.
fn erase_history_id(history: &mut Vec<Notification>, id: u32)
    ensures
        final(history)@ == spec_erase_history(old(history)@, id),
{
    let mut i: usize = 0;
    while i < history.len()
        invariant
            0 <= i <= history@.len(),
            history@ == old(history)@,
            forall|j: int| 0 <= j < i ==> history@[j].id != id,
        decreases history@.len() - i,
    {
        if history[i].id == id {
            proof {
                lemma_erase_history_at(history@, id, i as int);
            }
            history.remove(i);
            return ;
        }
        i = i + 1;
    }
    proof {
        lemma_erase_history_none(history@, id);
    }
}

/// The stacking order lists a popup's id exactly when the popup is there.
pub proof fn lemma_has_popup_ids(popups: Seq<NotificationPopup>, id: u32)
    ensures
        spec_has_popup(popups, id) <==> spec_ids_of(popups).contains(id),
{
    if spec_has_popup(popups, id) {
        let i = choose|i: int| 0 <= i < popups.len() && popups[i].notification_id == id;
        assert(spec_ids_of(popups)[i] == id);
    }
    if spec_ids_of(popups).contains(id) {
        let i = choose|i: int| 0 <= i < spec_ids_of(popups).len() && spec_ids_of(popups)[i] == id;
        assert(popups[i].notification_id == id);
    }
}

/// Dropping a popup and dropping its id from the order walk in step.
pub proof fn lemma_ids_drop_commute(popups: Seq<NotificationPopup>, id: u32)
    ensures
        spec_ids_of(spec_drop_popup(popups, id)) == spec_drop_id(spec_ids_of(popups), id),
    decreases popups.len(),
{
    reveal(Seq::filter);
    if popups.len() == 0 {
        assert(spec_ids_of(spec_drop_popup(popups, id)) =~= spec_drop_id(
            spec_ids_of(popups),
            id,
        ));
    } else {
        let rest = popups.drop_last();
        let last = popups.last();
        lemma_ids_drop_commute(rest, id);
        assert(spec_ids_of(rest) =~= spec_ids_of(popups).drop_last());
        assert(spec_ids_of(popups) =~= spec_ids_of(rest).push(last.notification_id));
        spec_ids_of(rest).lemma_filter_push(last.notification_id, spec_other_id(id));
        if last.notification_id != id {
            assert(spec_drop_popup(popups, id) == spec_drop_popup(rest, id).push(last));
            assert(spec_ids_of(spec_drop_popup(rest, id).push(last)) =~= spec_ids_of(
                spec_drop_popup(rest, id),
            ).push(last.notification_id));
            assert(spec_ids_of(spec_drop_popup(popups, id)) =~= spec_drop_id(
                spec_ids_of(popups),
                id,
            ));
        } else {
            assert(spec_drop_popup(popups, id) == spec_drop_popup(rest, id));
            assert(spec_ids_of(spec_drop_popup(popups, id)) =~= spec_drop_id(
                spec_ids_of(popups),
                id,
            ));
        }
    }
}

} // verus!
