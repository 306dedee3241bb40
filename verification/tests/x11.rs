use localpass::clipboard::{ClearOutcome, CopyOutcome};
use localpass::x11::{
    classify_linux_session, clear_destroyed, previous_destroyed, reply_property,
    x11_display_is_local, x11_token_matches, LinuxSession, X11ClearStep, X11CopyStep,
    X11LeaseToken, X11OwnerCheck, X11Selection, X11TargetAtoms, X11TargetReply,
};

#[test]
fn x11_display_guard_allows_only_local_unix_forms() {
    assert!(x11_display_is_local(Some(":0")));
    assert!(x11_display_is_local(Some(":12.1")));
    assert!(x11_display_is_local(Some("unix:0")));
    assert!(x11_display_is_local(Some("unix/:0.0")));

    assert!(!x11_display_is_local(None));
    assert!(!x11_display_is_local(Some("")));
    assert!(!x11_display_is_local(Some("localhost:10.0")));
    assert!(!x11_display_is_local(Some("127.0.0.1:10.0")));
    assert!(!x11_display_is_local(Some("host.example:0")));
    assert!(!x11_display_is_local(Some(":0.extra")));
    assert!(!x11_display_is_local(Some(":x")));
}

#[test]
fn x11_display_guard_rejects_partial_numbers() {
    assert!(!x11_display_is_local(Some(":")));
    assert!(!x11_display_is_local(Some(":.0")));
    assert!(!x11_display_is_local(Some(":0.")));
    assert!(!x11_display_is_local(Some(":0.1.2")));
    assert!(!x11_display_is_local(Some("unix:")));
    assert!(!x11_display_is_local(Some("unix/0")));
    assert!(x11_display_is_local(Some(":1024.3")));
}

#[test]
fn linux_session_detection_never_falls_back_from_wayland_to_xwayland() {
    assert_eq!(
        classify_linux_session(true, Some("x11"), true),
        LinuxSession::Wayland
    );
    assert_eq!(
        classify_linux_session(false, Some("wayland"), true),
        LinuxSession::Wayland
    );
    assert_eq!(
        classify_linux_session(false, Some(" WayLand "), true),
        LinuxSession::Wayland
    );
    assert_eq!(
        classify_linux_session(false, Some("x11"), true),
        LinuxSession::X11
    );
    assert_eq!(classify_linux_session(false, None, true), LinuxSession::X11);
    assert_eq!(
        classify_linux_session(false, Some(""), true),
        LinuxSession::X11
    );
    assert_eq!(
        classify_linux_session(false, Some("tty"), true),
        LinuxSession::Unavailable
    );
    assert_eq!(
        classify_linux_session(false, Some("x11"), false),
        LinuxSession::Unavailable
    );
}

#[test]
fn session_type_ignores_unicode_whitespace_and_ascii_case() {
    assert_eq!(
        classify_linux_session(false, Some("\u{3000}X11\t"), true),
        LinuxSession::X11
    );
    assert_eq!(
        classify_linux_session(false, Some("  \n"), true),
        LinuxSession::X11
    );
    assert_eq!(
        classify_linux_session(false, Some("  \n"), false),
        LinuxSession::Unavailable
    );
    assert_eq!(
        classify_linux_session(false, Some("way land"), true),
        LinuxSession::Unavailable
    );
}

#[test]
fn x11_targets_exclude_and_reject_save_targets() {
    let atoms = X11TargetAtoms {
        targets: 1,
        utf8_string: 2,
        text: 3,
        string: 4,
        text_plain_utf8: 5,
        text_plain: 6,
        kde_hint: 7,
        save_targets: 8,
    };

    assert_eq!(atoms.offered(), [1, 2, 3, 4, 5, 6, 7]);
    assert!(!atoms.offered().contains(&atoms.save_targets));
    assert_eq!(atoms.reply_for(atoms.targets), X11TargetReply::Targets);
    assert_eq!(atoms.reply_for(atoms.text), X11TargetReply::Text(2));
    assert_eq!(atoms.reply_for(atoms.utf8_string), X11TargetReply::Text(2));
    assert_eq!(atoms.reply_for(atoms.kde_hint), X11TargetReply::Hint);
    assert_eq!(atoms.reply_for(atoms.save_targets), X11TargetReply::Reject);
    assert_eq!(atoms.reply_for(99), X11TargetReply::Reject);
}

#[test]
fn x11_lease_identity_requires_window_and_lease_id() {
    let active = X11LeaseToken {
        lease_id: 41,
        window: 900,
    };

    assert!(x11_token_matches(Some(active), active));
    assert!(!x11_token_matches(
        Some(active),
        X11LeaseToken {
            lease_id: 42,
            window: 900,
        }
    ));
    assert!(!x11_token_matches(None, active));
}

#[test]
fn reply_property_falls_back_to_target_only_for_none() {
    assert_eq!(reply_property(0, 31), 31);
    assert_eq!(reply_property(7, 31), 7);
}

#[test]
fn lease_numbers_advance_and_wrap() {
    let mut selection: X11Selection<String> = X11Selection::new();
    let first = selection.issue_token(10);
    assert_eq!(first, X11LeaseToken { lease_id: 1, window: 10 });
    let second = selection.issue_token(11);
    assert_eq!(second.lease_id, 2);
    assert_eq!(selection.active(), None);
}

#[test]
fn confirmed_copy_replaces_and_confirms_previous_window() {
    let mut selection: X11Selection<String> = X11Selection::new();
    let first = selection.issue_token(10);
    assert!(matches!(
        selection.settle_copy(first, "one".to_owned(), X11OwnerCheck::Owner(Some(10))),
        X11CopyStep::Finished { outcome: CopyOutcome::Committed(t), destroy: (None, None) } if t == first
    ));
    assert_eq!(selection.active(), Some(first));
    assert_eq!(selection.served(true, 10).map(String::as_str), Some("one"));
    assert_eq!(selection.served(false, 10), None);
    assert_eq!(selection.served(true, 11), None);

    let second = selection.issue_token(11);
    assert!(matches!(
        selection.settle_copy(second, "two".to_owned(), X11OwnerCheck::Owner(Some(11))),
        X11CopyStep::DestroyPrevious { window: 10 }
    ));
    assert_eq!(selection.active(), Some(second));
    assert_eq!(selection.served(true, 11).map(String::as_str), Some("two"));
    assert!(matches!(previous_destroyed(second, true), CopyOutcome::Committed(t) if t == second));
    assert!(matches!(
        previous_destroyed(second, false),
        CopyOutcome::CommitUncertain(Some(t)) if t == second
    ));
}

#[test]
fn refused_lost_and_stolen_claims_settle_differently() {
    let mut selection: X11Selection<String> = X11Selection::new();
    let first = selection.issue_token(10);
    selection.settle_copy(first, "one".to_owned(), X11OwnerCheck::Owner(Some(10)));

    let refused = selection.issue_token(20);
    assert!(matches!(
        selection.settle_copy(refused, "x".to_owned(), X11OwnerCheck::Refused),
        X11CopyStep::Finished { outcome: CopyOutcome::PreCommitFailure, destroy: (Some(20), None) }
    ));
    assert_eq!(selection.active(), Some(first));

    let lost = selection.issue_token(21);
    assert!(matches!(
        selection.settle_copy(lost, "y".to_owned(), X11OwnerCheck::Lost),
        X11CopyStep::Finished {
            outcome: CopyOutcome::CommitUncertain(Some(t)),
            destroy: (Some(10), None),
        } if t == lost
    ));
    assert_eq!(selection.active(), Some(lost));

    let stolen = selection.issue_token(22);
    assert!(matches!(
        selection.settle_copy(stolen, "z".to_owned(), X11OwnerCheck::Owner(Some(99))),
        X11CopyStep::Finished {
            outcome: CopyOutcome::DestructiveFailure,
            destroy: (Some(22), Some(21)),
        }
    ));
    assert_eq!(selection.active(), None);

    let unknown = selection.issue_token(23);
    assert!(matches!(
        selection.settle_copy(unknown, "w".to_owned(), X11OwnerCheck::Owner(None)),
        X11CopyStep::Finished { outcome: CopyOutcome::CommitUncertain(Some(_)), destroy: (None, None) }
    ));
}

#[test]
fn clears_only_the_active_lease() {
    let mut selection: X11Selection<String> = X11Selection::new();
    let token = selection.issue_token(10);
    selection.settle_copy(token, "one".to_owned(), X11OwnerCheck::Owner(Some(10)));
    let other = X11LeaseToken { lease_id: token.lease_id + 1, window: 10 };
    assert!(matches!(
        selection.settle_clear(other, Some(10)),
        X11ClearStep::Finished { outcome: ClearOutcome::OwnershipLost, destroy: None }
    ));
    assert_eq!(selection.active(), Some(token));
    assert!(matches!(
        selection.settle_clear(token, Some(10)),
        X11ClearStep::DestroyOwned { window: 10 }
    ));
    assert_eq!(selection.active(), None);
    assert_eq!(clear_destroyed(true, true), ClearOutcome::Cleared);
    assert_eq!(clear_destroyed(false, true), ClearOutcome::OwnershipLost);
    assert_eq!(clear_destroyed(false, false), ClearOutcome::Fatal);

    let token = selection.issue_token(12);
    selection.settle_copy(token, "two".to_owned(), X11OwnerCheck::Owner(Some(12)));
    assert!(matches!(
        selection.settle_clear(token, None),
        X11ClearStep::Finished { outcome: ClearOutcome::Fatal, destroy: Some(12) }
    ));
    let token = selection.issue_token(13);
    selection.settle_copy(token, "three".to_owned(), X11OwnerCheck::Owner(Some(13)));
    assert!(matches!(
        selection.settle_clear(token, Some(77)),
        X11ClearStep::Finished { outcome: ClearOutcome::OwnershipLost, destroy: Some(13) }
    ));
}

#[test]
fn losing_the_selection_ends_only_the_active_lease() {
    let mut selection: X11Selection<String> = X11Selection::new();
    let token = selection.issue_token(10);
    selection.settle_copy(token, "one".to_owned(), X11OwnerCheck::Owner(Some(10)));
    assert_eq!(selection.selection_cleared(false, 10), None);
    assert_eq!(selection.selection_cleared(true, 11), None);
    assert_eq!(selection.active(), Some(token));
    assert_eq!(selection.selection_cleared(true, 10), Some(10));
    assert_eq!(selection.active(), None);
}
