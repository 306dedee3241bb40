use localpass::window_service::{
    validate_zoom_percent, CloseReducer, CloseStart, Coordinator, Effects, ExitAction,
    RedactionAction, Surface, TimerAction, View, ViewAction, WindowServiceError,
    REDACTION_DELAY_MS,
};

fn opacity(effects: Effects) -> f64 {
    f64::from(effects.opacity) / 100.0
}

fn percent(fraction: f64) -> u32 {
    (fraction * 100.0).round() as u32
}

#[test]
fn outside_focus_defers_once_and_stale_tokens_cannot_roll() {
    let mut coordinator = Coordinator::default();
    assert_eq!(opacity(coordinator.set_focus(Surface::Main, true)), 1.0);

    let first = match coordinator.set_focus(Surface::Main, false).timer {
        TimerAction::Defer { token } => token,
        action => panic!("expected deferral, got {action:?}"),
    };
    assert_eq!(
        coordinator.set_focus(Surface::Main, true).timer,
        TimerAction::Cancel
    );
    assert_eq!(coordinator.roll_due(first).view, ViewAction::Unchanged);

    let second = match coordinator.set_focus(Surface::Main, false).timer {
        TimerAction::Defer { token } => token,
        action => panic!("expected new deferral, got {action:?}"),
    };
    assert_ne!(first.generation(), second.generation());
    assert_eq!(coordinator.roll_due(second).view, ViewAction::Roll);
    assert!(coordinator.is_rolled());
    assert_eq!(
        coordinator.set_focus(Surface::Main, true).view,
        ViewAction::Unchanged
    );
    assert!(coordinator.is_rolled());
}

#[test]
fn hover_changes_only_opacity_and_never_expands() {
    let mut coordinator = Coordinator::default();
    assert_eq!(
        coordinator.set_pointer_inside(Surface::Main, true),
        Effects {
            opacity: percent(0.95),
            view: ViewAction::Unchanged,
            timer: TimerAction::Unchanged,
        }
    );
    assert_eq!(
        opacity(coordinator.set_pointer_inside(Surface::Main, false)),
        0.85
    );
    assert!(coordinator.pending_roll().is_none());

    coordinator.note_view(View::Rolled);
    assert_eq!(
        coordinator.set_pointer_inside(Surface::Main, true).view,
        ViewAction::Unchanged
    );
    assert!(coordinator.is_rolled());
}

#[test]
fn about_focus_handoff_cancels_outside_collapse() {
    let mut coordinator = Coordinator::default();
    coordinator.set_focus(Surface::Main, true);
    coordinator.set_about_open(true);
    assert_eq!(
        coordinator.set_focus(Surface::Main, false).timer,
        TimerAction::Unchanged
    );
    coordinator.set_focus(Surface::About, true);

    let pending = match coordinator.set_about_open(false).timer {
        TimerAction::Defer { token } => token,
        action => panic!("expected deferral, got {action:?}"),
    };
    assert_eq!(
        coordinator.set_focus(Surface::Main, true).timer,
        TimerAction::Cancel
    );
    assert_eq!(coordinator.roll_due(pending).view, ViewAction::Unchanged);
}

#[test]
fn high_contrast_suppresses_outside_collapse() {
    let mut coordinator = Coordinator::default();
    coordinator.set_focus(Surface::Main, true);
    let pending = match coordinator.set_focus(Surface::Main, false).timer {
        TimerAction::Defer { token } => token,
        action => panic!("expected deferral, got {action:?}"),
    };
    let high_contrast = coordinator.set_high_contrast(true);
    assert_eq!(opacity(high_contrast), 1.0);
    assert_eq!(high_contrast.timer, TimerAction::Cancel);
    assert!(coordinator.pending_roll().is_none());
    assert_eq!(coordinator.roll_due(pending).view, ViewAction::Unchanged);
}

#[test]
fn close_reducer_rejects_stale_ack_and_allows_only_guarded_exit() {
    let mut close = CloseReducer::default();
    assert_eq!(close.exit_requested(), ExitAction::StartBoundedClose);
    let ticket = match close.begin_native() {
        CloseStart::AwaitRedaction { ticket, after } => {
            assert_eq!(after, REDACTION_DELAY_MS);
            ticket
        }
        action => panic!("expected native redaction, got {action:?}"),
    };

    assert_eq!(close.exit_requested(), ExitAction::Prevent);
    assert_eq!(close.begin_native(), CloseStart::AlreadyClosing);
    assert_eq!(close.acknowledge(ticket + 1), RedactionAction::Stale);
    assert_eq!(close.redaction_due(ticket), RedactionAction::DestroyNow);
    assert!(close.mark_destroyed());
    assert!(!close.mark_destroyed());
    assert_eq!(close.exit_requested(), ExitAction::Prevent);
    assert!(close.allow_exit());
    assert_eq!(close.exit_requested(), ExitAction::Allow);
}

#[test]
fn frontend_close_is_ready_to_destroy_without_an_ack() {
    let mut close = CloseReducer::default();
    assert_eq!(close.begin_frontend(), CloseStart::DestroyNow);
    assert!(close.is_closing());
    assert_eq!(close.exit_requested(), ExitAction::Prevent);
    assert!(!close.is_destroyed());
    assert!(close.mark_destroyed());
    assert!(close.is_destroyed());
    assert_eq!(close.acknowledge(1), RedactionAction::Stale);
}

#[test]
fn first_native_ticket_is_one_and_redaction_timeout_is_ignored_after_ack() {
    let mut close = CloseReducer::default();
    assert_eq!(
        close.begin_native(),
        CloseStart::AwaitRedaction {
            ticket: 1,
            after: REDACTION_DELAY_MS
        }
    );
    assert_eq!(close.acknowledge(1), RedactionAction::DestroyNow);
    assert_eq!(close.redaction_due(1), RedactionAction::Unchanged);
    assert!(!close.allow_exit() || close.is_closing());
}

#[test]
fn running_reducer_refuses_exit_permission() {
    let mut close = CloseReducer::default();
    assert!(!close.allow_exit());
    assert!(!close.is_closing());
    assert!(!close.mark_destroyed());
}

#[test]
fn zoom_levels_are_exactly_the_offered_ones() {
    for zoom in [75, 90, 100, 110, 125, 150, 175, 200] {
        assert!(validate_zoom_percent(zoom).is_ok());
    }
    for zoom in [i32::MIN, -1, 0, 74, 76, 99, 101, 124, 126, 149, 199, 201, i32::MAX] {
        assert!(matches!(
            validate_zoom_percent(zoom),
            Err(WindowServiceError::InvalidGeometry)
        ));
    }
}

#[test]
fn tokens_skip_zero_and_hover_on_closed_about_is_ignored() {
    let mut coordinator = Coordinator::default();
    let effects = coordinator.set_pointer_inside(Surface::About, true);
    assert_eq!(opacity(effects), 0.85);
    coordinator.set_focus(Surface::Main, true);
    match coordinator.set_focus(Surface::Main, false).timer {
        TimerAction::Defer { token } => assert_eq!(token.generation(), 1),
        action => panic!("expected deferral, got {action:?}"),
    }
}
