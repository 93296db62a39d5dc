//! Protocol side of the `org.freedesktop.Notifications` interface: id
//! assignment, hint decoding, the active-notification record, and the
//! decisions behind `Notify`, `CloseNotification`, `GetCapabilities` and
//! `GetServerInformation`.
//!
//! The bus transport is outside: these functions take the decoded call
//! arguments and say which id to return, what the accepted notification looks
//! like, and which signal to emit.

use vstd::prelude::*;

use crate::notification::Notification;
use crate::seq_util::lemma_filter_all_false;
use crate::seq_util::lemma_filter_all_true;
use crate::notification::RawHints;
use crate::notification::spec_resident_of_hint;
use crate::notification::spec_urgency_of_hint;
use crate::notification::resident_of_hint;
use crate::notification::urgency_of_hint;

verus! {

/// `NotificationClosed` reason: the notification expired (also used for
/// user-initiated dismissal, preserved for client compatibility).
pub const CLOSE_REASON_EXPIRED: u32 = 1;

/// `NotificationClosed` reason: an action was invoked on the notification.
pub const CLOSE_REASON_DISMISSED: u32 = 2;

/// `NotificationClosed` reason: a `CloseNotification` call.
pub const CLOSE_REASON_CLOSED_BY_CALL: u32 = 3;

/// A bus signal the service asks its transport to emit.
#[derive(Debug, Clone, PartialEq, Eq)]
pub enum SignalRequest {
    NotificationClosed { id: u32, reason: u32 },
    ActionInvoked { id: u32, action_key: String },
}

/// Protocol state: the id counter and the ids of notifications accepted and
/// not yet closed by call — all that `CloseNotification` reads when it decides
/// whether a `NotificationClosed` signal is owed.
#[derive(Debug, Clone)]
pub struct NotificationServer {
    /// Next id to assign; starts at 1 and only grows, so 0 is never assigned.
    pub next_id: u32,
    pub active: Vec<u32>,
}

/// The id a `Notify` call gets: a fresh one from the counter, or the id it
/// replaces.
pub open spec fn spec_assigned_id(next_id: u32, replaces_id: u32) -> u32 {
    if replaces_id == 0 {
        next_id
    } else {
        replaces_id
    }
}

/// The counter after a `Notify` call: bumped only when it allocated.
pub open spec fn spec_counter_after(next_id: u32, replaces_id: u32) -> u32 {
    if replaces_id == 0 {
        (next_id + 1) as u32
    } else {
        next_id
    }
}

/// The predicate that keeps an active id: it is not the one dropped.
pub open spec fn spec_other_id(id: u32) -> spec_fn(u32) -> bool {
    |m: u32| m != id
}

/// The active ids after dropping `id`, in their order.
pub open spec fn spec_drop_id(active: Seq<u32>, id: u32) -> Seq<u32> {
    active.filter(spec_other_id(id))
}

/// The active ids after recording `id`: recording supersedes any record it
/// already had.
pub open spec fn spec_record_active(active: Seq<u32>, id: u32) -> Seq<u32> {
    spec_drop_id(active, id).push(id)
}

/// The signal a `CloseNotification(id)` asks for: one `NotificationClosed`
/// with reason 3 when the id was active, none otherwise.
pub open spec fn spec_close_signal(active: Seq<u32>, id: u32) -> Option<SignalRequest> {
    if active.contains(id) {
        Some(SignalRequest::NotificationClosed { id, reason: CLOSE_REASON_CLOSED_BY_CALL })
    } else {
        None
    }
}

/// Nothing in `spec_drop_id`'s result is the dropped id, and every other id
/// survives, exactly as often as it occurred.
pub proof fn lemma_drop_id(active: Seq<u32>, id: u32)
    ensures
        !spec_drop_id(active, id).contains(id),
        forall|i: int| 0 <= i < spec_drop_id(active, id).len() ==> spec_drop_id(active, id)[i] != id,
        forall|m: u32| spec_drop_id(active, id).contains(m) <==> active.contains(m) && m != id,
{
    let pred = spec_other_id(id);
    let dropped = spec_drop_id(active, id);
    assert forall|i: int| 0 <= i < dropped.len() implies dropped[i] != id by {
        active.lemma_filter_pred(pred, i);
    }
    assert forall|m: u32| dropped.contains(m) implies active.contains(m) && m != id by {
        active.lemma_filter_contains_rev(pred, m);
        let i = choose|i: int| 0 <= i < dropped.len() && dropped[i] == m;
        assert(pred(dropped[i]));
    }
    assert forall|m: u32| active.contains(m) && m != id implies dropped.contains(m) by {
        let i = choose|i: int| 0 <= i < active.len() && active[i] == m;
        active.lemma_filter_contains(pred, i);
    }
}

/// Dropping an id skips nothing but that id, so removing one of its
/// occurrences first changes nothing.
pub proof fn lemma_drop_id_remove(s: Seq<u32>, id: u32, i: int)
    requires
        0 <= i < s.len(),
        s[i] == id,
    ensures
        spec_drop_id(s.remove(i), id) == spec_drop_id(s, id),
{
    let pred = spec_other_id(id);
    let a = s.subrange(0, i);
    let b = s.subrange(i + 1, s.len() as int);
    assert(s =~= a + seq![s[i]] + b);
    assert(s.remove(i) =~= a + b);
    Seq::filter_distributes_over_add(a + seq![s[i]], b, pred);
    Seq::filter_distributes_over_add(a, seq![s[i]], pred);
    Seq::filter_distributes_over_add(a, b, pred);
    lemma_filter_all_false(seq![s[i]], pred);
    assert(spec_drop_id(s, id) =~= spec_drop_id(s.remove(i), id));
}

impl NotificationServer {
    pub open spec fn wf(self) -> bool {
        self.next_id >= 1
    }

    /// A fresh server: the counter starts at 1, nothing is active.
    pub fn new() -> (s: NotificationServer)
        ensures
            s.wf(),
            s.next_id == 1,
            s.active@ =~= Seq::<u32>::empty(),
    {
        NotificationServer { next_id: 1, active: Vec::new() }
    }

    /// The `Notify` call: assigns the id (fresh when `replaces_id == 0`, else
    /// `replaces_id` itself), builds the notification with the decoded hints,
    /// and records its id as active. The returned notification is what the
    /// caller forwards to the orchestrator; its `id` field is the RPC's
    /// result.
    ///
    /// Counter wrap-around is treated as never happening at `u32` scale, so a
    /// fresh allocation asks for room on the counter.
    pub fn notify(
        &mut self,
        app_name: String,
        replaces_id: u32,
        app_icon: String,
        summary: String,
        body: String,
        actions: Vec<String>,
        hints: RawHints,
        expire_timeout: i32,
    ) -> (n: Notification)
        requires
            old(self).wf(),
            replaces_id == 0 ==> old(self).next_id < u32::MAX,
        ensures
            final(self).wf(),
            n == (Notification {
                id: spec_assigned_id(old(self).next_id, replaces_id),
                app_name,
                replaces_id,
                app_icon,
                summary,
                body,
                actions,
                expire_timeout,
                urgency: spec_urgency_of_hint(hints.urgency),
                image_path: hints.image_path,
                resident: spec_resident_of_hint(hints.resident),
            }),
            n.id != 0,
            final(self).next_id == spec_counter_after(old(self).next_id, replaces_id),
            final(self).active@ == spec_record_active(old(self).active@, n.id),
    {
        let new_id = if replaces_id == 0 {
            let id = self.next_id;
            self.next_id = self.next_id + 1;
            id
        } else {
            replaces_id
        };

        let urgency = urgency_of_hint(hints.urgency);
        let resident = resident_of_hint(hints.resident);

        remove_active_id(&mut self.active, new_id);
        self.active.push(new_id);

        Notification {
            id: new_id,
            app_name,
            replaces_id,
            app_icon,
            summary,
            body,
            actions,
            expire_timeout,
            urgency,
            image_path: hints.image_path,
            resident,
        }
    }

    /// The `CloseNotification` call: drops the active record under `id` and
    /// asks for exactly one `NotificationClosed(id, 3)` if there was one;
    /// closing an unknown id is the mandated no-op. The call itself always
    /// succeeds.
    pub fn close_notification(&mut self, id: u32) -> (sig: Option<SignalRequest>)
        ensures
            final(self).next_id == old(self).next_id,
            final(self).active@ == spec_drop_id(old(self).active@, id),
            sig == spec_close_signal(old(self).active@, id),
            !final(self).active@.contains(id),
    {
        let found = has_active_id(&self.active, id);
        remove_active_id(&mut self.active, id);
        proof {
            lemma_drop_id(old(self).active@, id);
        }
        if found {
            Some(SignalRequest::NotificationClosed { id, reason: CLOSE_REASON_CLOSED_BY_CALL })
        } else {
            None
        }
    }

    /// The `GetCapabilities` call: the fixed capability set of this server.
    pub fn get_capabilities(&self) -> (caps: Vec<String>)
        ensures
            caps@.len() == 5,
            caps@[0]@ == "body"@,
            caps@[1]@ == "actions"@,
            caps@[2]@ == "persistence"@,
            caps@[3]@ == "icon-static"@,
            caps@[4]@ == "body-markup"@,
    {
        let mut caps: Vec<String> = Vec::new();
        caps.push(String::from_str("body"));
        caps.push(String::from_str("actions"));
        caps.push(String::from_str("persistence"));
        caps.push(String::from_str("icon-static"));
        caps.push(String::from_str("body-markup"));
        caps
    }

    /// The `GetServerInformation` call: name, vendor, version, and the
    /// protocol revision this server speaks.
    pub fn get_server_information(&self) -> (info: (String, String, String, String))
        ensures
            info.0@ == "kaneru"@,
            info.1@ == "Kaneru Project"@,
            info.2@ == "0.1.0"@,
            info.3@ == "1.2"@,
    {
        (
            String::from_str("kaneru"),
            String::from_str("Kaneru Project"),
            String::from_str("0.1.0"),
            String::from_str("1.2"),
        )
    }
}

/// Whether `id` is recorded as active.
fn has_active_id(active: &Vec<u32>, id: u32) -> (found: bool)
    ensures
        found == active@.contains(id),
{
    let mut i: usize = 0;
    while i < active.len()
        invariant
            0 <= i <= active@.len(),
            forall|j: int| 0 <= j < i ==> active@[j] != id,
        decreases active@.len() - i,
    {
        if active[i] == id {
            return true;
        }
        i = i + 1;
    }
    false
}

/// Finds the first occurrence of `id` among the active ids.
fn find_active_index(active: &Vec<u32>, id: u32) -> (r: Option<usize>)
    ensures
        match r {
            Some(i) => i < active@.len() && active@[i as int] == id,
            None => !active@.contains(id),
        },
{
    let mut i: usize = 0;
    while i < active.len()
        invariant
            0 <= i <= active@.len(),
            forall|j: int| 0 <= j < i ==> active@[j] != id,
        decreases active@.len() - i,
    {
        if active[i] == id {
            return Some(i);
        }
        i = i + 1;
    }
    None
}

/// Removes every occurrence of `id` among the active ids (at most one, in a
/// set the server itself built).
fn remove_active_id(active: &mut Vec<u32>, id: u32)
    ensures
        final(active)@ == spec_drop_id(old(active)@, id),
{
    loop
        invariant
            spec_drop_id(active@, id) == spec_drop_id(old(active)@, id),
        decreases active@.len(),
    {
        match find_active_index(active, id) {
            Some(i) => {
                proof {
                    lemma_drop_id_remove(active@, id, i as int);
                }
                active.remove(i);
            },
            None => {
                proof {
                    assert forall|j: int| 0 <= j < active@.len() implies spec_other_id(id)(
                        active@[j],
                    ) by {
                        assert(active@.contains(active@[j]));
                    }
                    lemma_filter_all_true(active@, spec_other_id(id));
                }
                return ;
            },
        }
    }
}

/// Law: sequential `Notify` calls that allocate (`replaces_id == 0`) return
/// strictly increasing ids, however many calls of either kind run in between.
///
/// `mids` is the `replaces_id` argument of each intervening call; the counter
/// after running them is `spec_counter_run`, and the id of the next allocating
/// call is always strictly above the id of the first.
pub proof fn lemma_id_monotonic(next_id: u32, mids: Seq<u32>)
    requires
        next_id < u32::MAX,
    ensures
        spec_assigned_id(spec_counter_run((next_id + 1) as u32, mids), 0) > spec_assigned_id(
            next_id,
            0,
        ),
{
    lemma_counter_run_monotonic((next_id + 1) as u32, mids);
}

/// The counter after a run of `Notify` calls whose `replaces_id` arguments
/// are `mids`, saturating at `u32::MAX` (which the design treats as
/// unreachable).
pub open spec fn spec_counter_run(next_id: u32, mids: Seq<u32>) -> u32
    decreases mids.len(),
{
    if mids.len() == 0 {
        next_id
    } else if next_id == u32::MAX {
        u32::MAX
    } else {
        spec_counter_run(spec_counter_after(next_id, mids[0]), mids.drop_first())
    }
}

/// The id counter never moves backwards.
pub proof fn lemma_counter_run_monotonic(next_id: u32, mids: Seq<u32>)
    ensures
        spec_counter_run(next_id, mids) >= next_id,
    decreases mids.len(),
{
    if mids.len() > 0 && next_id < u32::MAX {
        lemma_counter_run_monotonic(spec_counter_after(next_id, mids[0]), mids.drop_first());
    }
}

/// Law (replacement identity, protocol side): after a `Notify` that reuses id
/// `k` (`replaces_id == k != 0`), the active set records `k` exactly once; an
/// immediate `CloseNotification(k)` asks for exactly one
/// `NotificationClosed(k, 3)` and leaves no record of `k` — the same records
/// as if `k` had never been notified.
pub proof fn lemma_replacement_close(active: Seq<u32>, k: u32)
    requires
        k != 0,
    ensures
        spec_record_active(active, k).filter(|m: u32| m == k) =~= seq![k],
        spec_close_signal(spec_record_active(active, k), k) == Some(
            SignalRequest::NotificationClosed { id: k, reason: CLOSE_REASON_CLOSED_BY_CALL },
        ),
        !spec_drop_id(spec_record_active(active, k), k).contains(k),
        spec_drop_id(spec_record_active(active, k), k) == spec_drop_id(active, k),
{
    let recorded = spec_record_active(active, k);
    let base = spec_drop_id(active, k);
    lemma_drop_id(active, k);

    // The record for k is the last element, so the close signal is owed.
    assert(recorded[recorded.len() - 1] == k);
    assert(recorded.contains(k));

    // Exactly one occurrence of k: the ones before were dropped.
    let same = |m: u32| m == k;
    assert forall|i: int| 0 <= i < base.len() implies !same(base[i]) by {
        active.lemma_filter_pred(spec_other_id(k), i);
    }
    lemma_filter_all_false(base, same);
    base.lemma_filter_push(k, same);
    assert(recorded.filter(same) =~= seq![k]);

    // Closing k afterwards drops exactly that record.
    base.lemma_filter_push(k, spec_other_id(k));
    lemma_filter_all_true(base, spec_other_id(k));
    lemma_drop_id(recorded, k);
}

} // verus!
