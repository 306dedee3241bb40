use localpass::generator::GenerateError;
use localpass::session::{decimal_text, CommandError, SensitiveState};
use localpass::clipboard::ClipboardStatus;
use localpass::shell::{
    cleanup_waits_on, navigation_allowed, UrlParts,
    collapsed_opacity_script, drag_allowed, native_close_script, opacity_script, require_label,
    surface_for_label, CleanupStep, FocusStep, SessionTheme, WindowState, COLLAPSED_OPACITY_PREFIX,
    NATIVE_CLOSE_PREFIX, OPACITY_ACTIVE_SCRIPT, OPACITY_HOVERED_SCRIPT, OPACITY_IDLE_SCRIPT,
    THEME_DARK_SCRIPT, THEME_LIGHT_SCRIPT,
};
use localpass::window_service::{
    TimerAction, View, ViewAction,
    ExitAction, Surface, EXIT_CLEANUP_DELAY_MS, REDACTION_DELAY_MS,
};

#[test]
fn collapsed_opacity_accepts_only_range_and_step_values() {
    let mut windows = WindowState::default();
    assert_eq!(windows.collapsed_opacity_percent, 50);
    for percent in (25..=75).step_by(5) {
        assert_eq!(
            windows
                .set_collapsed_opacity(percent, |accepted| {
                    assert_eq!(accepted, percent);
                    Ok(())
                })
                .unwrap(),
            percent
        );
        assert_eq!(windows.collapsed_opacity_percent, percent);
    }
    for percent in [i32::MIN, -5, 0, 20, 24, 26, 49, 74, 76, 80, i32::MAX] {
        assert!(matches!(
            windows.set_collapsed_opacity(percent, |_| panic!("must not notify")),
            Err(CommandError::InvalidCollapsedOpacity)
        ));
        assert_eq!(windows.collapsed_opacity_percent, 75);
    }
}

#[test]
fn collapsed_opacity_rejection_preserves_session_value() {
    let mut windows = WindowState::default();
    windows.set_collapsed_opacity(25, |_| Ok(())).unwrap();
    assert!(matches!(
        windows.set_collapsed_opacity(75, |_| Err(CommandError::WindowUnavailable)),
        Err(CommandError::WindowUnavailable)
    ));
    assert_eq!(windows.collapsed_opacity_percent, 25);
    windows.close.begin_native();
    assert!(matches!(
        windows.set_collapsed_opacity(75, |_| panic!("must not notify")),
        Err(CommandError::CloseInProgress)
    ));
    assert_eq!(windows.collapsed_opacity_percent, 25);
}

#[test]
fn collapsed_opacity_survives_about_reopen_but_not_a_new_session() {
    let mut windows = WindowState::default();
    windows.coordinator.set_about_open(true);
    windows.set_collapsed_opacity(75, |_| Ok(())).unwrap();
    windows.coordinator.set_about_open(false);
    windows.coordinator.set_about_open(true);
    assert_eq!(windows.collapsed_opacity_percent, 75);
    assert_eq!(WindowState::default().collapsed_opacity_percent, 50);
}

#[test]
fn stored_batches_are_opaque_and_replaceable() {
    let mut state = SensitiveState::default();
    let first_ticket = state.begin_generation(1).unwrap();
    let first = state
        .commit_generation(first_ticket, &["first".to_owned()])
        .unwrap();
    let second_ticket = state.begin_generation(2).unwrap();
    let second = state
        .commit_generation(second_ticket, &["second".to_owned()])
        .unwrap();

    assert_ne!(first, second);
    assert!(matches!(
        state.validate_row(&first, 0),
        Err(CommandError::StaleBatch)
    ));
    state.validate_row(&second, 0).unwrap();
    assert!(matches!(
        state.validate_row(&second, 1),
        Err(CommandError::RowOutOfRange)
    ));
}

#[test]
fn stale_view_epoch_cannot_clear_newer_batch() {
    let mut state = SensitiveState::default();
    let ticket = state.begin_generation(1).unwrap();
    let id = state
        .commit_generation(ticket, &["secret".to_owned()])
        .unwrap();

    assert!(matches!(
        state.clear_batch(1),
        Err(CommandError::StaleViewEpoch)
    ));
    state.validate_row(&id, 0).unwrap();
    state.clear_batch(2).unwrap();
    assert!(matches!(
        state.validate_row(&id, 0),
        Err(CommandError::StaleBatch)
    ));
}

#[test]
fn begin_generation_invalidates_old_batch_before_work_starts() {
    let mut state = SensitiveState::default();
    let first_ticket = state.begin_generation(1).unwrap();
    let first = state
        .commit_generation(first_ticket, &["first".to_owned()])
        .unwrap();

    let _second_ticket = state.begin_generation(2).unwrap();

    assert!(matches!(
        state.validate_row(&first, 0),
        Err(CommandError::StaleBatch)
    ));
}

#[test]
fn newer_generation_supersedes_out_of_order_commit() {
    let mut state = SensitiveState::default();
    let first_ticket = state.begin_generation(1).unwrap();
    let second_ticket = state.begin_generation(2).unwrap();
    let second = state
        .commit_generation(second_ticket, &["second".to_owned()])
        .unwrap();

    assert!(matches!(
        state.commit_generation(first_ticket, &["first".to_owned()]),
        Err(CommandError::StaleViewEpoch)
    ));
    state.validate_row(&second, 0).unwrap();
}

#[test]
fn clear_supersedes_in_flight_generation() {
    let mut state = SensitiveState::default();
    let ticket = state.begin_generation(1).unwrap();

    state.clear_batch(2).unwrap();

    assert!(matches!(
        state.commit_generation(ticket, &["late".to_owned()]),
        Err(CommandError::StaleViewEpoch)
    ));
}

#[test]
fn epochs_must_increase_but_may_skip_missing_requests() {
    let mut state = SensitiveState::default();

    let ticket = state.begin_generation(2).unwrap();
    assert!(matches!(
        state.begin_generation(1),
        Err(CommandError::StaleViewEpoch)
    ));
    assert!(matches!(
        state.begin_generation(2),
        Err(CommandError::StaleViewEpoch)
    ));
    state.abort_generation(ticket).unwrap();
    state.clear_batch(4).unwrap();
}

#[test]
fn batch_ids_are_decimal_and_count_from_one() {
    let mut state = SensitiveState::default();
    let ticket = state.begin_generation(7).unwrap();
    let id = state.commit_generation(ticket, &["a".to_owned(), "b".to_owned()]).unwrap();
    assert_eq!(id, "1");
    let (password, generation) = state.password_for_copy(&id, 1).unwrap();
    assert_eq!(password, "b");
    assert_eq!(generation, 7);
    let ticket = state.begin_generation(8).unwrap();
    assert_eq!(state.commit_generation(ticket, &[]).unwrap(), "2");
    assert!(matches!(
        state.password_for_copy("1", 0),
        Err(CommandError::StaleBatch)
    ));
    assert!(matches!(
        state.password_for_copy("2", 0),
        Err(CommandError::RowOutOfRange)
    ));
}

#[test]
fn decimal_text_writes_digits_without_leading_zeros() {
    assert_eq!(decimal_text(0), "0");
    assert_eq!(decimal_text(9), "9");
    assert_eq!(decimal_text(10), "10");
    assert_eq!(decimal_text(907), "907");
    assert_eq!(decimal_text(u64::MAX), u64::MAX.to_string());
}

#[test]
fn aborted_generation_cannot_commit_and_abort_of_stale_ticket_is_harmless() {
    let mut state = SensitiveState::default();
    let first = state.begin_generation(1).unwrap();
    let second = state.begin_generation(2).unwrap();
    state.abort_generation(first).unwrap();
    let id = state.commit_generation(second, &["kept".to_owned()]).unwrap();
    state.validate_row(&id, 0).unwrap();
    let third = state.begin_generation(3).unwrap();
    state.abort_generation(third).unwrap();
    assert!(matches!(
        state.commit_generation(third, &["late".to_owned()]),
        Err(CommandError::StaleViewEpoch)
    ));
}

#[test]
fn force_clear_for_close_moves_to_a_fresh_epoch() {
    let mut state = SensitiveState::default();
    let ticket = state.begin_generation(5).unwrap();
    let id = state.commit_generation(ticket, &["secret".to_owned()]).unwrap();
    assert_eq!(state.force_clear_for_close(), 6);
    assert!(matches!(state.validate_row(&id, 0), Err(CommandError::StaleBatch)));
    assert!(matches!(state.clear_batch(6), Err(CommandError::StaleViewEpoch)));
    state.clear_batch(u64::MAX).unwrap();
    assert_eq!(state.force_clear_for_close(), u64::MAX);
}

#[test]
fn scripts_carry_their_numbers() {
    assert_eq!(
        native_close_script(42),
        format!("{}42}}));}})();", NATIVE_CLOSE_PREFIX)
    );
    assert_eq!(
        collapsed_opacity_script(35),
        format!("{}35}}));", COLLAPSED_OPACITY_PREFIX)
    );
    assert_eq!(opacity_script(100), OPACITY_ACTIVE_SCRIPT);
    assert_eq!(opacity_script(95), OPACITY_HOVERED_SCRIPT);
    assert_eq!(opacity_script(94), OPACITY_IDLE_SCRIPT);
    assert_eq!(SessionTheme::Dark.script(), THEME_DARK_SCRIPT);
    assert_eq!(SessionTheme::Light.script(), THEME_LIGHT_SCRIPT);
    assert_eq!(SessionTheme::Dark.as_str(), "dark");
    assert_eq!(SessionTheme::Light.as_str(), "light");
}

#[test]
fn window_labels_are_checked_exactly() {
    assert!(require_label("main", &["main"]).is_ok());
    assert!(require_label("about", &["main", "about"]).is_ok());
    assert!(matches!(
        require_label("about", &["main"]),
        Err(CommandError::UnauthorizedWindow)
    ));
    assert!(matches!(
        require_label("mainx", &["main"]),
        Err(CommandError::UnauthorizedWindow)
    ));
    assert_eq!(surface_for_label("main").unwrap(), Surface::Main);
    assert_eq!(surface_for_label("about").unwrap(), Surface::About);
    assert!(matches!(
        surface_for_label("other"),
        Err(CommandError::UnauthorizedWindow)
    ));
    assert!(drag_allowed("main"));
    assert!(drag_allowed("about"));
    assert!(!drag_allowed("Main"));
}

#[test]
fn frontend_close_clears_sensitive_state_and_refuses_a_second_close() {
    let mut windows = WindowState::default();
    let mut state = SensitiveState::default();
    let ticket = state.begin_generation(1).unwrap();
    let id = state.commit_generation(ticket, &["secret".to_owned()]).unwrap();
    assert!(matches!(
        windows.begin_frontend_close(&mut state, 1),
        Err(CommandError::StaleViewEpoch)
    ));
    state.validate_row(&id, 0).unwrap();
    windows.begin_frontend_close(&mut state, 2).unwrap();
    assert!(matches!(state.validate_row(&id, 0), Err(CommandError::StaleBatch)));
    assert_eq!(windows.cleanup_epoch, Some(2));
    assert!(matches!(
        windows.begin_frontend_close(&mut state, 3),
        Err(CommandError::CloseInProgress)
    ));
    assert!(windows.begin_native_close(&mut state).is_none());
}

#[test]
fn native_close_awaits_the_matching_ticket() {
    let mut windows = WindowState::default();
    let mut state = SensitiveState::default();
    state.clear_batch(9).unwrap();
    let (ticket, after, epoch) = windows.begin_native_close(&mut state).unwrap();
    assert_eq!(ticket, 1);
    assert_eq!(after, REDACTION_DELAY_MS);
    assert_eq!(epoch, 10);
    assert_eq!(windows.cleanup_epoch, Some(10));
    assert!(matches!(
        windows.acknowledge_close(ticket + 1),
        Err(CommandError::StaleCloseTicket)
    ));
    windows.acknowledge_close(ticket).unwrap();
    assert!(matches!(
        windows.acknowledge_close(ticket),
        Err(CommandError::StaleCloseTicket)
    ));
}

#[test]
fn exit_requests_start_one_bounded_close_and_keep_the_code() {
    let mut windows = WindowState::default();
    assert_eq!(windows.exit_request(Some(3), 1_000), ExitAction::StartBoundedClose);
    assert_eq!(windows.cleanup_deadline, Some(1_000 + EXIT_CLEANUP_DELAY_MS));
    assert_eq!(windows.exit_code, 3);
    assert!(windows.claim_cleanup_worker());
    assert!(!windows.claim_cleanup_worker());
}

#[test]
fn cleanup_exits_once_after_the_windows_are_gone() {
    let mut windows = WindowState::default();
    let mut state = SensitiveState::default();
    assert_eq!(windows.cleanup_step(true, 0), CleanupStep::Wait);
    windows.begin_frontend_close(&mut state, 1).unwrap();
    assert_eq!(windows.exit_request(Some(4), 0), ExitAction::Prevent);
    assert_eq!(windows.cleanup_step(true, 0), CleanupStep::Wait);
    assert!(windows.close.mark_destroyed());
    assert_eq!(windows.cleanup_step(false, 0), CleanupStep::Wait);
    assert_eq!(windows.cleanup_step(true, 0), CleanupStep::Exit { code: 0 });
    assert_eq!(windows.close.exit_requested(), ExitAction::Allow);
    assert_eq!(windows.cleanup_step(true, 0), CleanupStep::Stop);
    assert_eq!(windows.exit_request(None, 0), ExitAction::Allow);
}

fn url<'a>(scheme: &'a str, host: Option<&'a str>, port: Option<u16>) -> UrlParts<'a> {
    UrlParts { scheme, host, port, has_username: false, has_password: false }
}

#[test]
fn navigation_allows_only_the_embedded_origin() {
    for windows in [false, true] {
        assert_eq!(
            navigation_allowed(&url("tauri", Some("localhost"), None), windows, false),
            !windows
        );
        assert_eq!(
            navigation_allowed(&url("https", Some("tauri.localhost"), None), windows, false),
            windows
        );
        assert!(!navigation_allowed(&url("http", Some("tauri.localhost"), None), windows, false));
        assert!(!navigation_allowed(&url("https", Some("example.com"), None), windows, false));
        assert!(!navigation_allowed(
            &url("https", Some("tauri.localhost.example.com"), None),
            windows,
            false
        ));
        assert!(!navigation_allowed(&url("https", Some("tauri.localhost"), Some(444)), windows, false));
        let with_user = UrlParts { has_username: true, ..url("https", Some("tauri.localhost"), None) };
        assert!(!navigation_allowed(&with_user, windows, false));
        let dev = url("http", Some("127.0.0.1"), Some(1420));
        assert!(navigation_allowed(&dev, windows, true));
        assert!(!navigation_allowed(&dev, windows, false));
        assert!(!navigation_allowed(&url("http", Some("127.0.0.1"), Some(1421)), windows, true));
    }
}

fn status(state: &'static str) -> ClipboardStatus {
    ClipboardStatus {
        state,
        policy: "ownership_safe",
        deadline_ms: None,
        timeout_seconds: 30,
        macos_best_effort_clear: false,
        last_release: None,
        release_sequence: 0,
    }
}

#[test]
fn close_cleanup_waits_while_a_release_is_due() {
    assert!(cleanup_waits_on(&status("release_pending")));
    assert!(cleanup_waits_on(&status("countdown")));
    assert!(!cleanup_waits_on(&status("idle")));
    assert!(!cleanup_waits_on(&status("policy_off")));
}

#[test]
fn finishing_a_generation_commits_aborts_or_wipes() {
    let mut state = SensitiveState::default();
    let ticket = state.begin_generation(1).unwrap();
    let (id, passwords) = state
        .finish_generation(ticket, Ok(vec!["one".to_owned()]))
        .unwrap();
    assert_eq!(id, "1");
    assert_eq!(passwords, vec!["one".to_owned()]);
    state.validate_row(&id, 0).unwrap();

    let ticket = state.begin_generation(2).unwrap();
    assert!(matches!(
        state.finish_generation(ticket, Err(GenerateError::NoCharacterGroups)),
        Err(CommandError::NoCharacterGroups)
    ));
    assert!(matches!(
        state.commit_generation(ticket, &["late".to_owned()]),
        Err(CommandError::StaleViewEpoch)
    ));

    let stale = state.begin_generation(3).unwrap();
    state.clear_batch(4).unwrap();
    assert!(matches!(
        state.finish_generation(stale, Ok(vec!["two".to_owned()])),
        Err(CommandError::StaleViewEpoch)
    ));
}

#[test]
fn window_state_steps_follow_the_coordinator() {
    let mut windows = WindowState::default();
    assert!(matches!(
        windows.focus_event(Surface::Main, true),
        FocusStep::Apply { mask_passwords: false, .. }
    ));
    // The main window losing focus masks passwords and schedules a collapse.
    match windows.focus_event(Surface::Main, false) {
        FocusStep::Apply { mask_passwords, effects } => {
            assert!(mask_passwords);
            assert!(matches!(effects.timer, TimerAction::Defer { .. }));
            assert_eq!(effects.view, ViewAction::Unchanged);
        }
        FocusStep::CloseAbout => panic!("main focus never closes About"),
    }
    // Hover only changes opacity.
    let effects = windows.pointer_event(Surface::Main, true).unwrap();
    assert_eq!(effects.opacity, 95);
    assert_eq!(effects.view, ViewAction::Unchanged);
    assert_eq!(effects.timer, TimerAction::Unchanged);
    // Opening About cancels the pending collapse and never rolls.
    let (effects, percent) = windows.begin_about(false).unwrap();
    assert_eq!(percent, 50);
    assert_eq!(effects.view, ViewAction::Unchanged);
    assert_eq!(effects.timer, TimerAction::Cancel);
    assert_eq!(windows.focus_event(Surface::About, false), FocusStep::CloseAbout);
    let effects = windows.about_closed();
    assert!(matches!(effects.timer, TimerAction::Defer { .. }));
    // High contrast keeps the window expanded and cancels the collapse.
    let (applied, effects) = windows.prepare_view(View::Rolled, true).unwrap();
    assert_eq!(applied, View::Expanded);
    assert_eq!(effects.opacity, 100);
    assert_eq!(effects.timer, TimerAction::Cancel);
}

#[test]
fn native_close_bumps_the_epoch_by_one() {
    let mut windows = WindowState::default();
    let mut state = SensitiveState::default();
    state.clear_batch(41).unwrap();
    let (_, _, epoch) = windows.begin_native_close(&mut state).unwrap();
    assert_eq!(epoch, 42);
}
