use std::collections::VecDeque;

use localpass::clipboard::{
    deadline_millis, wall_millis, ActorCore, ClearOutcome, ClearPolicy, ClipboardAdapter, ClipboardError,
    CopyOutcome, PlatformMode, ReleaseOutcome, BUSY_RETRY_MS, UNCERTAIN_MAX_ATTEMPTS,
};

const SECOND: u64 = 1_000;

struct MockAdapter {
    copy_outcomes: VecDeque<CopyOutcome<u64>>,
    clear_outcomes: VecDeque<ClearOutcome>,
    clear_calls: Vec<u64>,
}

impl MockAdapter {
    fn new(
        copy_outcomes: impl IntoIterator<Item = CopyOutcome<u64>>,
        clear_outcomes: impl IntoIterator<Item = ClearOutcome>,
    ) -> Self {
        Self {
            copy_outcomes: copy_outcomes.into_iter().collect(),
            clear_outcomes: clear_outcomes.into_iter().collect(),
            clear_calls: Vec::new(),
        }
    }
}

impl ClipboardAdapter for MockAdapter {
    type Token = u64;

    fn copy(&mut self, _text: &str) -> CopyOutcome<Self::Token> {
        self.copy_outcomes
            .pop_front()
            .expect("missing mock copy outcome")
    }

    fn clear_owned(&mut self, token: &Self::Token) -> ClearOutcome {
        self.clear_calls.push(*token);
        self.clear_outcomes
            .pop_front()
            .unwrap_or(ClearOutcome::OwnershipLost)
    }
}

fn start() -> u64 {
    5 * SECOND
}

#[test]
fn copy_phase_outcomes_preserve_or_invalidate_prior_lease() {
    let start = start();
    let adapter = MockAdapter::new(
        [
            CopyOutcome::Committed(1),
            CopyOutcome::PreCommitFailure,
            CopyOutcome::DestructiveFailure,
        ],
        [],
    );
    let mut core = ActorCore::new(adapter, PlatformMode::OwnershipSafe);

    core.copy("one", 1, start).unwrap();
    let first_generation = core.lease.as_ref().unwrap().generation;
    assert_eq!(
        core.copy("two", 1, start + SECOND),
        Err(ClipboardError::PreCommitFailure)
    );
    assert_eq!(core.lease.as_ref().unwrap().token, 1);
    assert_eq!(core.lease.as_ref().unwrap().generation, first_generation);

    assert_eq!(
        core.copy("three", 1, start + 2 * SECOND),
        Err(ClipboardError::DestructiveFailure)
    );
    assert!(core.lease.is_none());
}

#[test]
fn commit_uncertain_uses_bounded_quarantine_retry() {
    let start = start();
    let adapter = MockAdapter::new(
        [CopyOutcome::CommitUncertain(Some(7))],
        std::iter::repeat_n(ClearOutcome::Busy, usize::from(UNCERTAIN_MAX_ATTEMPTS)),
    );
    let mut core = ActorCore::new(adapter, PlatformMode::OwnershipSafe);

    assert_eq!(
        core.copy("secret", 1, start),
        Err(ClipboardError::CommitUncertain)
    );
    assert!(core.lease.is_none());
    assert!(core.quarantine.is_some());

    for attempt in 1..UNCERTAIN_MAX_ATTEMPTS {
        core.tick(start + BUSY_RETRY_MS * u64::from(attempt));
    }

    assert!(core.quarantine.is_none());
    assert_eq!(
        core.adapter.clear_calls.len(),
        usize::from(UNCERTAIN_MAX_ATTEMPTS)
    );
}

#[test]
fn timeout_recomputes_from_original_copy_time() {
    let start = start();
    let adapter = MockAdapter::new([CopyOutcome::Committed(1)], [ClearOutcome::Cleared]);
    let mut core = ActorCore::new(adapter, PlatformMode::OwnershipSafe);

    core.copy("secret", 1, start).unwrap();
    let status = core.set_timeout(5, start + 6 * SECOND).unwrap();

    assert_eq!(status.last_release, Some(ReleaseOutcome::Cleared));
    assert_eq!(status.release_sequence, 1);
    assert!(core.lease.is_none());
    assert_eq!(core.adapter.clear_calls, [1]);
}

#[test]
fn no_op_clear_after_timeout_does_not_replay_prior_release() {
    let start = start();
    let adapter = MockAdapter::new([CopyOutcome::Committed(1)], [ClearOutcome::Cleared]);
    let mut core = ActorCore::new(adapter, PlatformMode::OwnershipSafe);

    core.copy("secret", 1, start).unwrap();
    core.tick(start + 30 * SECOND);
    let released = core.status(start + 30 * SECOND);
    assert_eq!(released.last_release, Some(ReleaseOutcome::Cleared));
    assert_eq!(released.release_sequence, 1);

    let status = core.invalidate_before(2, start + 31 * SECOND).unwrap();
    assert_eq!(status.state, "idle");
    assert_eq!(status.last_release, None);
    assert_eq!(status.release_sequence, released.release_sequence);
    assert_eq!(core.adapter.clear_calls, [1]);
}

#[test]
fn new_copy_cancels_stale_generation_deadline() {
    let start = start();
    let adapter = MockAdapter::new(
        [CopyOutcome::Committed(1), CopyOutcome::Committed(2)],
        [ClearOutcome::Cleared],
    );
    let mut core = ActorCore::new(adapter, PlatformMode::OwnershipSafe);

    core.copy("one", 1, start).unwrap();
    core.copy("two", 2, start + SECOND).unwrap();
    core.tick(start + 30 * SECOND);
    assert!(core.adapter.clear_calls.is_empty());

    core.tick(start + 31 * SECOND);
    assert_eq!(core.adapter.clear_calls, [2]);
    assert!(core.lease.is_none());
}

#[test]
fn busy_release_retries_at_250_milliseconds() {
    let start = start();
    let adapter = MockAdapter::new(
        [CopyOutcome::Committed(4)],
        [ClearOutcome::Busy, ClearOutcome::Cleared],
    );
    let mut core = ActorCore::new(adapter, PlatformMode::OwnershipSafe);

    core.copy("secret", 1, start).unwrap();
    let status = core.release(start).unwrap();
    assert_eq!(status.state, "release_pending");
    core.tick(start + BUSY_RETRY_MS - 1);
    assert_eq!(core.adapter.clear_calls, [4]);

    core.tick(start + BUSY_RETRY_MS);
    assert_eq!(core.adapter.clear_calls, [4, 4]);
    assert!(core.lease.is_none());
}

#[test]
fn macos_policy_is_per_lease_and_disarm_is_irreversible() {
    let start = start();
    let adapter = MockAdapter::new([CopyOutcome::Committed(1), CopyOutcome::Committed(2)], []);
    let mut core = ActorCore::new(adapter, PlatformMode::MacOs);

    let off = core.copy("off", 1, start).unwrap();
    assert_eq!(off.state, "policy_off");
    assert_eq!(off.deadline_ms, None);

    core.set_macos_best_effort(true, start + SECOND).unwrap();
    core.set_timeout(5, start + 2 * SECOND).unwrap();
    assert_eq!(
        core.lease.as_ref().unwrap().clear_policy,
        ClearPolicy::NonMutating
    );
    core.release(start + 3 * SECOND).unwrap();
    assert!(core.adapter.clear_calls.is_empty());

    core.copy("armed", 2, start + 4 * SECOND).unwrap();
    assert_eq!(
        core.lease.as_ref().unwrap().clear_policy,
        ClearPolicy::BestEffortArmed
    );
    core.set_macos_best_effort(false, start + 5 * SECOND).unwrap();
    core.set_macos_best_effort(true, start + 6 * SECOND).unwrap();
    core.set_timeout(10, start + 7 * SECOND).unwrap();
    assert_eq!(
        core.lease.as_ref().unwrap().clear_policy,
        ClearPolicy::BestEffortDisarmed
    );
    assert_eq!(core.lease.as_ref().unwrap().deadline, None);
    core.release(start + 8 * SECOND).unwrap();
    assert!(core.adapter.clear_calls.is_empty());
}

#[test]
fn macos_disable_reports_active_lease_disarmed_without_release() {
    let start = start();
    let adapter = MockAdapter::new([CopyOutcome::Committed(9)], []);
    let mut core = ActorCore::new(adapter, PlatformMode::MacOs);

    core.set_macos_best_effort(true, start).unwrap();
    core.copy("armed", 1, start).unwrap();
    let status = core.set_macos_best_effort(false, start + SECOND).unwrap();

    assert_eq!(status.state, "policy_off");
    assert_eq!(status.policy, "best_effort_disarmed");
    assert_eq!(status.last_release, None);
    assert_eq!(status.release_sequence, 0);
    assert_eq!(
        core.lease.as_ref().unwrap().clear_policy,
        ClearPolicy::BestEffortDisarmed
    );
}

#[test]
fn macos_disable_ack_reports_release_that_already_finished() {
    let start = start();
    let adapter = MockAdapter::new([CopyOutcome::Committed(9)], [ClearOutcome::Cleared]);
    let mut core = ActorCore::new(adapter, PlatformMode::MacOs);

    core.set_macos_best_effort(true, start).unwrap();
    core.copy("armed", 1, start).unwrap();
    let prior = core.status(start + 29 * SECOND);
    core.tick(start + 30 * SECOND);
    let status = core.set_macos_best_effort(false, start + 30 * SECOND).unwrap();

    assert_eq!(status.state, "idle");
    assert_eq!(status.policy, "non_mutating");
    assert_eq!(status.last_release, Some(ReleaseOutcome::Cleared));
    assert!(status.release_sequence > prior.release_sequence);
    assert!(!status.macos_best_effort_clear);
}

#[test]
fn macos_disable_sequence_identifies_an_already_observed_release() {
    let start = start();
    let adapter = MockAdapter::new([CopyOutcome::Committed(9)], [ClearOutcome::Cleared]);
    let mut core = ActorCore::new(adapter, PlatformMode::MacOs);

    core.set_macos_best_effort(true, start).unwrap();
    core.copy("armed", 1, start).unwrap();
    core.tick(start + 30 * SECOND);
    let prior = core.status(start + 31 * SECOND);
    let status = core.set_macos_best_effort(false, start + 32 * SECOND).unwrap();

    assert_eq!(status.policy, "non_mutating");
    assert_eq!(status.last_release, Some(ReleaseOutcome::Cleared));
    assert_eq!(status.release_sequence, prior.release_sequence);
}

#[test]
fn macos_consent_starts_off_for_every_actor_core() {
    let first = ActorCore::new(MockAdapter::new([], []), PlatformMode::MacOs);
    let second = ActorCore::new(MockAdapter::new([], []), PlatformMode::MacOs);

    assert!(!first.macos_best_effort_clear);
    assert!(!second.macos_best_effort_clear);
}

#[test]
fn macos_policy_off_never_calls_clear_adapter() {
    let start = start();
    let adapter = MockAdapter::new([CopyOutcome::Committed(3)], []);
    let mut core = ActorCore::new(adapter, PlatformMode::MacOs);

    core.copy("off", 1, start).unwrap();
    core.tick(start + 300 * SECOND);
    let status = core.release(start + 301 * SECOND).unwrap();

    assert_eq!(
        status.last_release,
        Some(ReleaseOutcome::SuppressedByPolicy)
    );
    assert!(core.adapter.clear_calls.is_empty());
}

#[test]
fn release_fence_rejects_stale_copy_before_adapter_commit() {
    let start = start();
    let adapter = MockAdapter::new([CopyOutcome::Committed(2)], []);
    let mut core = ActorCore::new(adapter, PlatformMode::OwnershipSafe);

    core.invalidate_before(2, start).unwrap();
    assert_eq!(
        core.copy("stale", 1, start),
        Err(ClipboardError::StaleGeneration)
    );
    assert_eq!(core.adapter.copy_outcomes.len(), 1);
    core.copy("current", 2, start).unwrap();
}

#[test]
fn release_fence_after_copy_clears_only_older_generation() {
    let start = start();
    let adapter = MockAdapter::new([CopyOutcome::Committed(1)], [ClearOutcome::Cleared]);
    let mut core = ActorCore::new(adapter, PlatformMode::OwnershipSafe);

    core.copy("old", 1, start).unwrap();
    let status = core.invalidate_before(2, start).unwrap();

    assert_eq!(status.last_release, Some(ReleaseOutcome::Cleared));
    assert!(core.lease.is_none());
    assert_eq!(core.adapter.clear_calls, [1]);
}

#[test]
fn stale_release_fence_cannot_clear_current_generation() {
    let start = start();
    let adapter = MockAdapter::new([CopyOutcome::Committed(2)], []);
    let mut core = ActorCore::new(adapter, PlatformMode::OwnershipSafe);

    core.invalidate_before(2, start).unwrap();
    core.copy("current", 2, start).unwrap();
    core.invalidate_before(2, start).unwrap();

    assert_eq!(core.lease.as_ref().unwrap().generation, 2);
    assert!(core.adapter.clear_calls.is_empty());
}

#[test]
fn status_deadline_is_reported_on_the_wall_clock() {
    let start = start();
    let adapter = MockAdapter::new([CopyOutcome::Committed(1)], []);
    let mut core = ActorCore::new(adapter, PlatformMode::OwnershipSafe);
    core.copy("secret", 1, start).unwrap();

    let status = core.status_at(start, (1_000 * SECOND) as i128);
    assert_eq!(status.deadline_ms, Some(1_030_000));
    assert_eq!(status.state, "countdown");
    assert_eq!(status.policy, "ownership_safe");
    assert_eq!(status.timeout_seconds, 30);
    assert!(!status.macos_best_effort_clear);
    assert_eq!(status.last_release, None);
    assert_eq!(status.release_sequence, 0);
    assert!(core.status(start).deadline_ms.is_some());
}

#[test]
fn release_outcomes_keep_their_wire_names() {
    for (outcome, wire_name) in [
        (ReleaseOutcome::Cleared, "cleared"),
        (ReleaseOutcome::OwnershipLost, "ownership_lost"),
        (ReleaseOutcome::Busy, "busy"),
        (ReleaseOutcome::Unsupported, "unsupported"),
        (ReleaseOutcome::Fatal, "fatal"),
        (ReleaseOutcome::SuppressedByPolicy, "suppressed_by_policy"),
    ] {
        assert_eq!(outcome.as_str(), wire_name);
    }
}

#[test]
fn deadline_millis_saturates() {
    assert_eq!(deadline_millis(10, 4, 100), 106);
    assert_eq!(deadline_millis(4, 10, 100), 100);
    assert_eq!(deadline_millis(u64::MAX, 0, 10), u64::MAX);
}

#[test]
fn invalid_timeouts_are_refused_without_change() {
    let mut core = ActorCore::new(MockAdapter::new([], []), PlatformMode::OwnershipSafe);
    for seconds in [0, 4, 7, 61, 65, u32::MAX] {
        assert_eq!(
            core.set_timeout(seconds, start()),
            Err(ClipboardError::InvalidTimeout)
        );
        assert_eq!(core.timeout_seconds, 30);
    }
    assert_eq!(core.set_timeout(60, start()).unwrap().timeout_seconds, 60);
}

#[test]
fn best_effort_is_refused_off_macos() {
    let mut core = ActorCore::new(MockAdapter::new([], []), PlatformMode::OwnershipSafe);
    assert_eq!(
        core.set_macos_best_effort(true, start()),
        Err(ClipboardError::Unsupported)
    );
    assert!(!core.macos_best_effort_clear);
}

#[test]
fn fatal_release_is_an_error_and_drops_the_lease() {
    let start = start();
    let adapter = MockAdapter::new([CopyOutcome::Committed(5)], [ClearOutcome::Fatal]);
    let mut core = ActorCore::new(adapter, PlatformMode::OwnershipSafe);
    core.copy("secret", 1, start).unwrap();
    assert_eq!(core.release(start), Err(ClipboardError::ReleaseFailed));
    assert!(core.lease.is_none());
    assert_eq!(core.last_release, Some(ReleaseOutcome::Fatal));
}

#[test]
fn uncertain_commit_without_token_only_drops_the_lease() {
    let start = start();
    let adapter = MockAdapter::new(
        [CopyOutcome::Committed(1), CopyOutcome::CommitUncertain(None)],
        [],
    );
    let mut core = ActorCore::new(adapter, PlatformMode::OwnershipSafe);
    core.copy("one", 1, start).unwrap();
    assert_eq!(
        core.copy("two", 1, start),
        Err(ClipboardError::CommitUncertain)
    );
    assert!(core.lease.is_none());
    assert!(core.quarantine.is_none());
    assert!(core.adapter.clear_calls.is_empty());
}

#[test]
fn next_due_is_the_earliest_pending_time() {
    let start = start();
    let adapter = MockAdapter::new([CopyOutcome::Committed(1)], [ClearOutcome::Busy]);
    let mut core = ActorCore::new(adapter, PlatformMode::OwnershipSafe);
    assert_eq!(core.next_due(), None);
    core.copy("secret", 1, start).unwrap();
    assert_eq!(core.next_due(), Some(start + 30 * SECOND));
    core.release(start).unwrap();
    assert_eq!(core.next_due(), Some(start + BUSY_RETRY_MS));
    assert_eq!(core.wake_at(start), Some(start + BUSY_RETRY_MS));
}

#[test]
fn wall_clock_readings_round_down_and_clip_before_the_epoch() {
    assert_eq!(wall_millis(Ok(1_500_000)), 1);
    assert_eq!(wall_millis(Ok(0)), 0);
    assert_eq!(wall_millis(Err(1)), -1);
    assert_eq!(wall_millis(Err(2_000_000)), -2);
    assert_eq!(deadline_millis(10, 4, -3), 3);
    assert_eq!(deadline_millis(10, 4, -6), 0);
    assert_eq!(deadline_millis(10, 4, -60), 0);
}

#[test]
fn settled_copy_outcomes_decide_the_lease() {
    let start = start();
    let mut core = ActorCore::new(MockAdapter::new([], [ClearOutcome::Busy]), PlatformMode::OwnershipSafe);
    let status = core.settle_copy(CopyOutcome::Committed(5), 3, start).unwrap();
    assert_eq!(status.state, "countdown");
    let lease = core.lease.as_ref().unwrap();
    assert_eq!((lease.token, lease.generation, lease.copied_at), (5, 3, start));
    assert_eq!(lease.deadline, Some(start + 30 * SECOND));
    assert_eq!(
        core.settle_copy(CopyOutcome::Unsupported, 4, start),
        Err(ClipboardError::Unsupported)
    );
    assert_eq!(core.lease.as_ref().unwrap().token, 5);
    assert_eq!(
        core.settle_copy(CopyOutcome::CommitUncertain(Some(9)), 4, start),
        Err(ClipboardError::CommitUncertain)
    );
    assert!(core.lease.is_none());
    assert_eq!(core.adapter.clear_calls, vec![9]);
    assert_eq!(core.quarantine.as_ref().unwrap().token, 9);
    assert_eq!(core.quarantine.as_ref().unwrap().retry_at, start + BUSY_RETRY_MS);
}

#[test]
fn settled_release_outcomes_decide_the_lease() {
    let start = start();
    let mut core = ActorCore::new(MockAdapter::new([CopyOutcome::Committed(2)], []), PlatformMode::OwnershipSafe);
    core.copy("secret", 1, start).unwrap();
    assert_eq!(core.settle_release(ClearOutcome::Busy, start), ReleaseOutcome::Busy);
    assert_eq!(core.lease.as_ref().unwrap().retry_at, Some(start + BUSY_RETRY_MS));
    assert_eq!(core.lease.as_ref().unwrap().deadline, None);
    assert_eq!(core.release_sequence, 1);
    assert_eq!(core.settle_release(ClearOutcome::OwnershipLost, start), ReleaseOutcome::OwnershipLost);
    assert!(core.lease.is_none());
    assert_eq!(core.last_release, Some(ReleaseOutcome::OwnershipLost));
    assert!(core.adapter.clear_calls.is_empty());
}

#[test]
fn releases_hand_the_lease_token_to_the_adapter() {
    let start = start();
    let adapter = MockAdapter::new([CopyOutcome::Committed(1)], [ClearOutcome::Cleared]);
    let mut core = ActorCore::new(adapter, PlatformMode::OwnershipSafe);
    core.copy("old", 1, start).unwrap();
    let status = core.invalidate_before(2, start).unwrap();
    assert_eq!(status.last_release, Some(ReleaseOutcome::Cleared));
    assert!(core.lease.is_none());
    assert_eq!(core.adapter.clear_calls, vec![1]);
}
