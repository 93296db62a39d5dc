use kaneru::config::NotificationPosition;
use kaneru::notification::Notification;
use kaneru::notification::RawHints;
use kaneru::notification::Urgency;
use kaneru::notification_manager::NotificationManager;
use kaneru::notification_popup::NotificationPopup;
use kaneru::notification_popup::PopupCommand;
use kaneru::notification_popup::PopupPhase;
use kaneru::notification_popup::effective_timeout_ms;
use kaneru::notification_server::NotificationServer;
use kaneru::notification_server::SignalRequest;

fn no_hints() -> RawHints {
    RawHints { urgency: None, image_path: None, resident: None }
}

fn hints(urgency: Option<u8>, resident: Option<bool>) -> RawHints {
    RawHints { urgency, image_path: None, resident }
}

fn notify(server: &mut NotificationServer, replaces_id: u32, h: RawHints) -> Notification {
    server.notify(
        String::from("app"),
        replaces_id,
        String::from(""),
        String::from("summary"),
        String::from("body"),
        Vec::new(),
        h,
        -1,
    )
}

fn manager() -> NotificationManager {
    NotificationManager::new(NotificationPosition::TopRight, Vec::new())
}

#[test]
fn sequential_ids_strictly_increase() {
    let mut server = NotificationServer::new();
    let a = notify(&mut server, 0, no_hints());
    let b = notify(&mut server, 0, no_hints());
    let c = notify(&mut server, 0, no_hints());
    assert_eq!(a.id, 1);
    assert_eq!(b.id, 2);
    assert_eq!(c.id, 3);
    assert!(a.id < b.id && b.id < c.id);
}

#[test]
fn replacement_reuses_id_and_skips_counter() {
    let mut server = NotificationServer::new();
    let a = notify(&mut server, 0, no_hints());
    let b = notify(&mut server, a.id, no_hints());
    assert_eq!(b.id, a.id);
    assert_eq!(b.replaces_id, a.id);
    let c = notify(&mut server, 0, no_hints());
    assert_eq!(c.id, 2);
}

#[test]
fn close_after_replacement_emits_exactly_one_signal() {
    let mut server = NotificationServer::new();
    let a = notify(&mut server, 0, no_hints());
    let _b = notify(&mut server, a.id, no_hints());
    let first = server.close_notification(a.id);
    assert_eq!(
        first,
        Some(SignalRequest::NotificationClosed { id: a.id, reason: 3 })
    );
    let second = server.close_notification(a.id);
    assert_eq!(second, None);
    assert!(!server.active.contains(&a.id));
}

#[test]
fn closing_unknown_id_is_a_no_op() {
    let mut server = NotificationServer::new();
    assert_eq!(server.close_notification(42), None);
}

#[test]
fn capabilities_are_the_fixed_set() {
    let server = NotificationServer::new();
    let caps = server.get_capabilities();
    assert_eq!(caps, vec!["body", "actions", "persistence", "icon-static", "body-markup"]);
}

#[test]
fn server_information_reports_protocol_revision() {
    let server = NotificationServer::new();
    let (_name, vendor, _version, spec_version) = server.get_server_information();
    assert_eq!(vendor, "Kaneru Project");
    assert_eq!(spec_version, "1.2");
}

#[test]
fn urgency_hint_decoding_defaults_to_normal() {
    let mut server = NotificationServer::new();
    let low = notify(&mut server, 0, hints(Some(0), None));
    let normal = notify(&mut server, 0, hints(Some(1), None));
    let critical = notify(&mut server, 0, hints(Some(2), None));
    let malformed = notify(&mut server, 0, hints(Some(9), None));
    let absent = notify(&mut server, 0, no_hints());
    assert_eq!(low.urgency, Urgency::Low);
    assert_eq!(normal.urgency, Urgency::Normal);
    assert_eq!(critical.urgency, Urgency::Critical);
    assert_eq!(malformed.urgency, Urgency::Normal);
    assert_eq!(absent.urgency, Urgency::Normal);
}

#[test]
fn resident_hint_defaults_to_false() {
    let mut server = NotificationServer::new();
    let absent = notify(&mut server, 0, no_hints());
    let set = notify(&mut server, 0, hints(None, Some(true)));
    assert!(!absent.resident);
    assert!(set.resident);
}

#[test]
fn timeout_defaults_follow_urgency() {
    assert_eq!(effective_timeout_ms(-1, Urgency::Critical, false), Some(10000));
    assert_eq!(effective_timeout_ms(-1, Urgency::Normal, false), Some(5000));
    assert_eq!(effective_timeout_ms(-1, Urgency::Low, false), Some(5000));
    assert_eq!(effective_timeout_ms(0, Urgency::Critical, false), None);
    assert_eq!(effective_timeout_ms(2500, Urgency::Low, false), Some(2500));
    assert_eq!(effective_timeout_ms(-7, Urgency::Critical, false), Some(10000));
}

#[test]
fn resident_suppresses_default_timeout_and_rearming() {
    assert_eq!(effective_timeout_ms(-1, Urgency::Critical, true), None);
    let n = Notification::new(
        1,
        String::from("app"),
        0,
        String::new(),
        String::from("s"),
        String::new(),
        Vec::new(),
        -1,
        Urgency::Normal,
        None,
        true,
    );
    let mut p = NotificationPopup::new(&n, 10, NotificationPosition::TopRight);
    assert_eq!(p.timer_ms, None);
    for _ in 0..3 {
        p.pointer_enter();
        p.pointer_leave();
        assert_eq!(p.timer_ms, None);
        assert!(!p.is_closing());
    }
}

#[test]
fn hover_rearms_fresh_fallback_timer() {
    let n = Notification::new(
        1,
        String::from("app"),
        0,
        String::new(),
        String::from("s"),
        String::new(),
        Vec::new(),
        120000,
        Urgency::Critical,
        None,
        false,
    );
    let mut p = NotificationPopup::new(&n, 10, NotificationPosition::TopRight);
    assert_eq!(p.timer_ms, Some(120000));
    p.pointer_enter();
    assert_eq!(p.phase, PopupPhase::Hovered);
    assert_eq!(p.timer_ms, None);
    p.pointer_leave();
    assert_eq!(p.phase, PopupPhase::CountingDown);
    assert_eq!(p.timer_ms, Some(10000));
}

#[test]
fn timer_fire_sends_close_exactly_once() {
    let n = Notification::new(
        7,
        String::from("app"),
        0,
        String::new(),
        String::from("s"),
        String::new(),
        Vec::new(),
        -1,
        Urgency::Normal,
        None,
        false,
    );
    let mut p = NotificationPopup::new(&n, 10, NotificationPosition::TopRight);
    assert_eq!(p.timer_ms, Some(5000));
    assert_eq!(p.timer_fire(), Some(PopupCommand::Close(7)));
    assert_eq!(p.phase, PopupPhase::Closing);
    assert_eq!(p.timer_fire(), None);
    assert_eq!(p.user_close(), None);
    assert!(!p.close_popup());
}

#[test]
fn close_popup_latches_once() {
    let n = Notification::new(
        3,
        String::from("app"),
        0,
        String::new(),
        String::from("s"),
        String::new(),
        Vec::new(),
        0,
        Urgency::Normal,
        None,
        false,
    );
    let mut p = NotificationPopup::new(&n, 10, NotificationPosition::TopRight);
    assert_eq!(p.timer_ms, None);
    assert!(p.close_popup());
    assert!(!p.close_popup());
    p.destroy();
    assert_eq!(p.phase, PopupPhase::Destroyed);
}

#[test]
fn expired_popup_closes_after_default_and_leaves_order() {
    let mut server = NotificationServer::new();
    let mut m = manager();
    let n = notify(&mut server, 0, no_hints());
    assert_eq!(n.id, 1);
    m.display_notification(n);
    assert_eq!(m.order, vec![1]);
    assert_eq!(m.popups[0].timer_ms, Some(5000));
    let cmd = m.popups[0].timer_fire().expect("armed timer fires");
    assert_eq!(cmd, PopupCommand::Close(1));
    let fx = m.handle_popup_command(cmd);
    assert_eq!(
        fx.signals,
        vec![SignalRequest::NotificationClosed { id: 1, reason: 1 }]
    );
    assert!(m.order.is_empty());
    assert!(m.popups.is_empty());
}

#[test]
fn replacement_keeps_single_popup_and_history_entry() {
    let mut server = NotificationServer::new();
    let mut m = manager();
    let first = notify(&mut server, 0, no_hints());
    assert_eq!(first.id, 1);
    m.display_notification(first);
    assert_eq!(m.order, vec![1]);
    assert_eq!(m.history.len(), 1);
    let replacement = notify(&mut server, 1, no_hints());
    assert_eq!(replacement.id, 1);
    let fx = m.display_notification(replacement);
    assert_eq!(m.order, vec![1]);
    assert_eq!(m.popups.len(), 1);
    assert_eq!(m.history.len(), 1);
    assert_eq!(fx.len(), 1);
    assert_eq!(fx[0].notification_id, 1);
    assert_eq!(fx[0].phase, PopupPhase::Closing);
}

#[test]
fn order_follows_creates_and_closes() {
    let mut server = NotificationServer::new();
    let mut m = manager();
    for _ in 0..3 {
        let n = notify(&mut server, 0, no_hints());
        m.display_notification(n);
    }
    assert_eq!(m.order, vec![1, 2, 3]);
    m.handle_popup_command(PopupCommand::Close(2));
    assert_eq!(m.order, vec![1, 3]);
    let n = notify(&mut server, 0, no_hints());
    assert_eq!(n.id, 4);
    m.display_notification(n);
    assert_eq!(m.order, vec![1, 3, 4]);
    let ids: Vec<u32> = m.popups.iter().map(|p| p.notification_id).collect();
    assert_eq!(ids, m.order);
}

#[test]
fn concurrent_closes_yield_one_signal_and_one_exit() {
    let mut server = NotificationServer::new();
    let mut m = manager();
    let n = notify(&mut server, 0, no_hints());
    m.display_notification(n);
    let first = m.handle_popup_command(PopupCommand::Close(1));
    let second = m.handle_popup_command(PopupCommand::Close(1));
    assert_eq!(
        first.signals,
        vec![SignalRequest::NotificationClosed { id: 1, reason: 1 }]
    );
    assert_eq!(first.closed.len(), 1);
    assert!(second.signals.is_empty());
    assert!(second.closed.is_empty());
}

#[test]
fn action_emits_both_signals_in_order() {
    let mut server = NotificationServer::new();
    let mut m = manager();
    let n = notify(&mut server, 0, no_hints());
    m.display_notification(n);
    let fx = m.handle_popup_command(PopupCommand::ActionInvoked(1, String::from("default")));
    assert_eq!(
        fx.signals,
        vec![
            SignalRequest::ActionInvoked { id: 1, action_key: String::from("default") },
            SignalRequest::NotificationClosed { id: 1, reason: 2 },
        ]
    );
    assert!(m.history.is_empty());
}

#[test]
fn action_for_absent_popup_still_emits_action_signal() {
    let mut m = manager();
    let fx = m.handle_popup_command(PopupCommand::ActionInvoked(9, String::from("k")));
    assert_eq!(
        fx.signals,
        vec![SignalRequest::ActionInvoked { id: 9, action_key: String::from("k") }]
    );
    assert!(fx.closed.is_empty());
}

#[test]
fn layout_stacks_by_measured_heights() {
    let mut server = NotificationServer::new();
    let mut m = manager();
    for _ in 0..3 {
        let n = notify(&mut server, 0, no_hints());
        m.display_notification(n);
    }
    // Unmeasured popups hold a one-pixel placeholder plus the gap.
    assert_eq!(m.popups[0].vertical_position, 10);
    assert_eq!(m.popups[1].vertical_position, 21);
    assert_eq!(m.popups[2].vertical_position, 32);
    m.popups[0].set_measured_height(100);
    m.popups[1].set_measured_height(50);
    m.recalculate_positions();
    assert_eq!(m.popups[0].vertical_position, 10);
    assert_eq!(m.popups[1].vertical_position, 120);
    assert_eq!(m.popups[2].vertical_position, 180);
}

#[test]
fn history_erases_only_the_closed_id() {
    let mut server = NotificationServer::new();
    let mut m = manager();
    for _ in 0..2 {
        let n = notify(&mut server, 0, no_hints());
        m.display_notification(n);
    }
    assert_eq!(m.history.len(), 2);
    m.handle_popup_command(PopupCommand::Close(1));
    assert_eq!(m.history.len(), 1);
    assert_eq!(m.history[0].id, 2);
}
