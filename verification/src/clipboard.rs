use vstd::prelude::*;

verus! {

/// Seconds a new copy stays on the clipboard before release, until changed.
pub const DEFAULT_TIMEOUT_SECONDS: u32 = 30;
/// Milliseconds between attempts while the clipboard is busy.
pub const BUSY_RETRY_MS: u64 = 250;
/// Clear attempts for content whose commit could not be confirmed.
pub const UNCERTAIN_MAX_ATTEMPTS: u8 = 8;
/// Latest monotonic time, in milliseconds, that the core accepts; later
/// deadlines would not fit in 64 bits.
pub const TIME_LIMIT_MS: u64 = 0xffff_ffff_fffe_0000;

/// Why a clipboard operation did not complete.
#[derive(Clone, Copy, Debug, Eq, PartialEq)]
pub enum ClipboardError {
    ActorUnavailable,
    InvalidTimeout,
    Unsupported,
    PreCommitFailure,
    DestructiveFailure,
    CommitUncertain,
    StaleGeneration,
    ReleaseFailed,
}

/// What the last release attempt did.
#[derive(Clone, Copy, Debug, Eq, PartialEq)]
pub enum ReleaseOutcome {
    Cleared,
    OwnershipLost,
    Busy,
    Unsupported,
    Fatal,
    SuppressedByPolicy,
}

/// The wire name of a release outcome.
pub open spec fn release_outcome_name(outcome: ReleaseOutcome) -> Seq<char> {
    match outcome {
        ReleaseOutcome::Cleared => "cleared"@,
        ReleaseOutcome::OwnershipLost => "ownership_lost"@,
        ReleaseOutcome::Busy => "busy"@,
        ReleaseOutcome::Unsupported => "unsupported"@,
        ReleaseOutcome::Fatal => "fatal"@,
        ReleaseOutcome::SuppressedByPolicy => "suppressed_by_policy"@,
    }
}

impl ReleaseOutcome {
    /// The snake-case wire name of the outcome.
    pub fn as_str(self) -> (name: &'static str)
        ensures
            name@ == release_outcome_name(self),
    {
        match self {
            ReleaseOutcome::Cleared => "cleared",
            ReleaseOutcome::OwnershipLost => "ownership_lost",
            ReleaseOutcome::Busy => "busy",
            ReleaseOutcome::Unsupported => "unsupported",
            ReleaseOutcome::Fatal => "fatal",
            ReleaseOutcome::SuppressedByPolicy => "suppressed_by_policy",
        }
    }
}

/// A snapshot of the clipboard lease for the user interface.
#[derive(Clone, Copy, Debug, Eq, PartialEq)]
pub struct ClipboardStatus {
    pub state: &'static str,
    pub policy: &'static str,
    pub deadline_ms: Option<u64>,
    pub timeout_seconds: u32,
    pub macos_best_effort_clear: bool,
    pub last_release: Option<ReleaseOutcome>,
    pub release_sequence: u64,
}

/// How a lease is released when its time comes.
#[derive(Clone, Copy, Debug, Eq, PartialEq)]
pub enum ClearPolicy {
    OwnershipSafe,
    NonMutating,
    BestEffortArmed,
    BestEffortDisarmed,
}

/// Releasing under this policy touches the clipboard.
pub open spec fn policy_mutates(policy: ClearPolicy) -> bool {
    policy == ClearPolicy::OwnershipSafe || policy == ClearPolicy::BestEffortArmed
}

/// The wire name of a clear policy.
pub open spec fn policy_name(policy: ClearPolicy) -> Seq<char> {
    match policy {
        ClearPolicy::OwnershipSafe => "ownership_safe"@,
        ClearPolicy::NonMutating => "non_mutating"@,
        ClearPolicy::BestEffortArmed => "best_effort_armed"@,
        ClearPolicy::BestEffortDisarmed => "best_effort_disarmed"@,
    }
}

impl ClearPolicy {
    /// Whether releasing under this policy clears the clipboard.
    pub fn mutates(self) -> (r: bool)
        ensures
            r == policy_mutates(self),
    {
        match self {
            ClearPolicy::OwnershipSafe | ClearPolicy::BestEffortArmed => true,
            ClearPolicy::NonMutating | ClearPolicy::BestEffortDisarmed => false,
        }
    }

    /// The snake-case wire name of the policy.
    pub fn as_str(self) -> (name: &'static str)
        ensures
            name@ == policy_name(self),
    {
        match self {
            ClearPolicy::OwnershipSafe => "ownership_safe",
            ClearPolicy::NonMutating => "non_mutating",
            ClearPolicy::BestEffortArmed => "best_effort_armed",
            ClearPolicy::BestEffortDisarmed => "best_effort_disarmed",
        }
    }
}

/// What the platform's clipboard can promise.
#[derive(Clone, Copy, Debug, Eq, PartialEq)]
pub enum PlatformMode {
    OwnershipSafe,
    MacOs,
    Unsupported,
}

/// How a platform adapter's copy ended.
#[derive(Debug)]
pub enum CopyOutcome<T> {
    PreCommitFailure,
    DestructiveFailure,
    Committed(T),
    CommitUncertain(Option<T>),
    Unsupported,
}

/// How a platform adapter's ownership-checked clear ended.
#[derive(Clone, Copy, Debug, Eq, PartialEq)]
pub enum ClearOutcome {
    Cleared,
    OwnershipLost,
    Busy,
    Unsupported,
    Fatal,
}

/// The release outcome that reports a clear outcome.
pub open spec fn reported(outcome: ClearOutcome) -> ReleaseOutcome {
    match outcome {
        ClearOutcome::Cleared => ReleaseOutcome::Cleared,
        ClearOutcome::OwnershipLost => ReleaseOutcome::OwnershipLost,
        ClearOutcome::Busy => ReleaseOutcome::Busy,
        ClearOutcome::Unsupported => ReleaseOutcome::Unsupported,
        ClearOutcome::Fatal => ReleaseOutcome::Fatal,
    }
}

/// Reports an adapter's clear outcome.
pub fn release_outcome_of(outcome: ClearOutcome) -> (r: ReleaseOutcome)
    ensures
        r == reported(outcome),
{
    match outcome {
        ClearOutcome::Cleared => ReleaseOutcome::Cleared,
        ClearOutcome::OwnershipLost => ReleaseOutcome::OwnershipLost,
        ClearOutcome::Busy => ReleaseOutcome::Busy,
        ClearOutcome::Unsupported => ReleaseOutcome::Unsupported,
        ClearOutcome::Fatal => ReleaseOutcome::Fatal,
    }
}

/// A platform clipboard. Nothing is assumed of its outcomes: the core's
/// contracts hold for each of them.
pub trait ClipboardAdapter {
    type Token;

    fn copy(&mut self, text: &str) -> CopyOutcome<Self::Token>;

    fn clear_owned(&mut self, token: &Self::Token) -> ClearOutcome;

    /// How often, in milliseconds, the adapter wants to be pumped; by
    /// default it never asks to be.
    fn poll_interval_ms(&self) -> (interval: Option<u64>)
        default_ensures
            interval is None,
    {
        None
    }

    fn pump(&mut self) {
    }
}

/// Content this application placed on the clipboard and still answers for.
#[derive(Debug)]
pub struct ClipboardLease<T> {
    pub generation: u64,
    pub token: T,
    pub copied_at: u64,
    pub deadline: Option<u64>,
    pub clear_policy: ClearPolicy,
    pub retry_at: Option<u64>,
}

/// Content whose commit could not be confirmed, cleared with bounded retries.
#[derive(Debug)]
pub struct Quarantine<T> {
    pub token: T,
    pub retry_at: u64,
    pub attempts_remaining: u8,
}

/// One call the core made to its adapter, with the adapter's answer.
pub enum AdapterCall<T> {
    Copy { text: Seq<char>, answer: CopyOutcome<T> },
    Clear { token: T, outcome: ClearOutcome },
}

/// The answer recorded for a clear call (anything else reads as `Fatal`).
pub open spec fn clear_answer<T>(call: AdapterCall<T>) -> ClearOutcome {
    match call {
        AdapterCall::Clear { outcome, .. } => outcome,
        AdapterCall::Copy { .. } => ClearOutcome::Fatal,
    }
}

/// The answer recorded for a copy call (anything else reads as `Unsupported`).
pub open spec fn copy_answer<T>(call: AdapterCall<T>) -> CopyOutcome<T> {
    match call {
        AdapterCall::Copy { answer, .. } => answer,
        AdapterCall::Clear { .. } => CopyOutcome::Unsupported,
    }
}

/// The part of the core that operations change, with every adapter call
/// the core has made so far.
pub struct Record<T> {
    pub lease: Option<ClipboardLease<T>>,
    pub quarantine: Option<Quarantine<T>>,
    pub last_release: Option<ReleaseOutcome>,
    pub release_sequence: u64,
    pub calls: Seq<AdapterCall<T>>,
}

/// A timeout the user may choose: 5 to 60 seconds in steps of 5.
pub open spec fn valid_timeout(seconds: u32) -> bool {
    5 <= seconds <= 60 && seconds % 5 == 0
}

/// `x + 1`, saturating.
pub open spec fn bumped(x: u64) -> u64 {
    if x == u64::MAX {
        x
    } else {
        (x + 1) as u64
    }
}

/// The policy a new copy gets on a platform.
pub open spec fn policy_for(mode: PlatformMode, best_effort: bool) -> ClearPolicy {
    match mode {
        PlatformMode::OwnershipSafe => ClearPolicy::OwnershipSafe,
        PlatformMode::MacOs => if best_effort {
            ClearPolicy::BestEffortArmed
        } else {
            ClearPolicy::NonMutating
        },
        PlatformMode::Unsupported => ClearPolicy::OwnershipSafe,
    }
}

/// A lease's dates agree with its policy.
pub open spec fn lease_wf<T>(lease: ClipboardLease<T>) -> bool {
    &&& lease.copied_at <= TIME_LIMIT_MS
    &&& lease.retry_at is Some ==> lease.deadline is None
    &&& !policy_mutates(lease.clear_policy) ==> lease.deadline is None && lease.retry_at is None
}

/// The lease after a busy clipboard: no deadline, retried shortly.
pub open spec fn waiting<T>(lease: ClipboardLease<T>, now: u64) -> ClipboardLease<T> {
    ClipboardLease {
        generation: lease.generation,
        token: lease.token,
        copied_at: lease.copied_at,
        deadline: None,
        clear_policy: lease.clear_policy,
        retry_at: Some((now + BUSY_RETRY_MS) as u64),
    }
}

/// The lease after the timeout changed to `seconds`: a pending countdown
/// restarts from the copy time, a non-clearing lease has no deadline.
pub open spec fn retimed<T>(lease: ClipboardLease<T>, seconds: u32) -> ClipboardLease<T> {
    ClipboardLease {
        generation: lease.generation,
        token: lease.token,
        copied_at: lease.copied_at,
        deadline: if policy_mutates(lease.clear_policy) && lease.retry_at is None {
            Some((lease.copied_at + seconds * 1000) as u64)
        } else if !policy_mutates(lease.clear_policy) {
            None
        } else {
            lease.deadline
        },
        clear_policy: lease.clear_policy,
        retry_at: lease.retry_at,
    }
}

/// The lease after best-effort clearing was switched off: an armed lease is
/// disarmed for good and loses its dates.
pub open spec fn disarmed<T>(lease: ClipboardLease<T>) -> ClipboardLease<T> {
    if lease.clear_policy == ClearPolicy::BestEffortArmed {
        ClipboardLease {
            generation: lease.generation,
            token: lease.token,
            copied_at: lease.copied_at,
            deadline: None,
            clear_policy: ClearPolicy::BestEffortDisarmed,
            retry_at: None,
        }
    } else {
        lease
    }
}

/// When a lease next needs attention: its retry, else its deadline.
pub open spec fn lease_due_at<T>(lease: Option<ClipboardLease<T>>) -> Option<u64> {
    match lease {
        Some(l) => if l.retry_at is Some {
            l.retry_at
        } else {
            l.deadline
        },
        None => None,
    }
}

/// A lease's deadline.
pub open spec fn lease_deadline<T>(lease: Option<ClipboardLease<T>>) -> Option<u64> {
    match lease {
        Some(l) => l.deadline,
        None => None,
    }
}

/// The earlier of two optional times.
pub open spec fn earliest(a: Option<u64>, b: Option<u64>) -> Option<u64> {
    match (a, b) {
        (Some(x), Some(y)) => Some(if x <= y {
            x
        } else {
            y
        }),
        (Some(x), None) => Some(x),
        (None, Some(y)) => Some(y),
        (None, None) => None,
    }
}

/// `due` has come at `now`.
pub open spec fn reached(due: Option<u64>, now: u64) -> bool {
    due matches Some(d) && d <= now
}

/// `post` calls are `pre` calls and one clear of `token`, answered as the
/// last recorded call says.
pub open spec fn one_clear<T>(pre: Seq<AdapterCall<T>>, post: Seq<AdapterCall<T>>, token: T) -> bool {
    post == pre.push(AdapterCall::Clear { token, outcome: clear_answer(post.last()) })
}

/// One release attempt, from `pre` to `post`, answered `r`: nothing without a
/// lease; a non-clearing lease is dropped as suppressed without asking the
/// adapter; otherwise the adapter is asked once to clear the lease's token,
/// its answer is recorded, and the lease waits when the clipboard was busy
/// and is dropped in every other case.
pub open spec fn attempt_spec<T>(pre: Record<T>, post: Record<T>, r: Option<ReleaseOutcome>, now: u64) -> bool {
    match pre.lease {
        None => r is None && post == pre,
        Some(l) => {
            &&& post.quarantine == pre.quarantine
            &&& post.release_sequence == bumped(pre.release_sequence)
            &&& post.last_release == r
            &&& if !policy_mutates(l.clear_policy) {
                &&& r == Some(ReleaseOutcome::SuppressedByPolicy)
                &&& post.lease is None
                &&& post.calls == pre.calls
            } else {
                let answer = clear_answer(post.calls.last());
                &&& one_clear(pre.calls, post.calls, l.token)
                &&& r == Some(reported(answer))
                &&& answer == ClearOutcome::Busy ==> post.lease == Some(waiting(l, now))
                &&& answer != ClearOutcome::Busy ==> post.lease is None
            }
        },
    }
}

/// The quarantine after a retry answered `answer` at `now`.
pub open spec fn requarantined<T>(q: Quarantine<T>, answer: ClearOutcome, now: u64) -> Option<Quarantine<T>> {
    if answer == ClearOutcome::Busy && q.attempts_remaining > 1 {
        Some(
            Quarantine {
                token: q.token,
                retry_at: (now + BUSY_RETRY_MS) as u64,
                attempts_remaining: (q.attempts_remaining - 1) as u8,
            },
        )
    } else {
        None
    }
}

/// One quarantine retry: the adapter is asked once to clear the quarantined
/// token and its answer is recorded; the quarantine is kept, with one attempt
/// fewer, only while the clipboard is busy and attempts remain.
pub open spec fn retry_spec<T>(pre: Record<T>, post: Record<T>, now: u64) -> bool {
    match pre.quarantine {
        None => post == pre,
        Some(q) => {
            let answer = clear_answer(post.calls.last());
            &&& post.lease == pre.lease
            &&& post.release_sequence == bumped(pre.release_sequence)
            &&& one_clear(pre.calls, post.calls, q.token)
            &&& post.last_release == Some(reported(answer))
            &&& post.quarantine == requarantined(q, answer, now)
        },
    }
}

/// What settling a copy answered `outcome` does, from `pre` to `post`, with
/// the policy and timeout a new lease gets: a committed copy becomes the
/// lease; a failure before commit or an unsupported clipboard changes
/// nothing; a destructive failure drops lease, quarantine and last release;
/// an uncertain commit drops them too and, given a token, asks the adapter
/// once to clear it, quarantining it while the clipboard is busy.
pub open spec fn copy_settled<T>(
    pre: Record<T>,
    post: Record<T>,
    outcome: CopyOutcome<T>,
    generation: u64,
    policy: ClearPolicy,
    timeout_seconds: u32,
    now: u64,
    result: Result<ClipboardStatus, ClipboardError>,
) -> bool {
    let dropped = Record::<T> { lease: None, quarantine: None, last_release: None, ..pre };
    match outcome {
        CopyOutcome::Committed(token) => {
            &&& result is Ok
            &&& post == Record::<T> {
                lease: Some(
                    ClipboardLease {
                        generation,
                        token,
                        copied_at: now,
                        deadline: if policy_mutates(policy) {
                            Some((now + timeout_seconds * 1000) as u64)
                        } else {
                            None
                        },
                        clear_policy: policy,
                        retry_at: None,
                    },
                ),
                quarantine: None,
                last_release: None,
                ..pre
            }
        },
        CopyOutcome::PreCommitFailure => result == Err::<ClipboardStatus, ClipboardError>(
            ClipboardError::PreCommitFailure,
        ) && post == pre,
        CopyOutcome::Unsupported => result == Err::<ClipboardStatus, ClipboardError>(
            ClipboardError::Unsupported,
        ) && post == pre,
        CopyOutcome::DestructiveFailure => result == Err::<ClipboardStatus, ClipboardError>(
            ClipboardError::DestructiveFailure,
        ) && post == dropped,
        CopyOutcome::CommitUncertain(None) => result == Err::<ClipboardStatus, ClipboardError>(
            ClipboardError::CommitUncertain,
        ) && post == dropped,
        CopyOutcome::CommitUncertain(Some(token)) => {
            let answer = clear_answer(post.calls.last());
            &&& result == Err::<ClipboardStatus, ClipboardError>(ClipboardError::CommitUncertain)
            &&& post.lease is None
            &&& one_clear(pre.calls, post.calls, token)
            &&& post.last_release == Some(reported(answer))
            &&& post.release_sequence == bumped(pre.release_sequence)
            &&& post.quarantine == if answer == ClearOutcome::Busy {
                Some(
                    Quarantine {
                        token,
                        retry_at: (now + BUSY_RETRY_MS) as u64,
                        attempts_remaining: (UNCERTAIN_MAX_ATTEMPTS - 1) as u8,
                    },
                )
            } else {
                None
            }
        },
    }
}

/// Some release attempt leads from `pre` to `post`.
pub open spec fn some_attempt<T>(pre: Record<T>, post: Record<T>, now: u64) -> bool {
    exists|outcome: Option<ReleaseOutcome>| #[trigger] attempt_spec(pre, post, outcome, now)
}

/// A tick through `mid`: the quarantine retry if it is due, then a release
/// attempt if the lease's retry or deadline has come.
pub open spec fn tick_step<T>(pre: Record<T>, mid: Record<T>, post: Record<T>, now: u64) -> bool {
    &&& reached(
        match pre.quarantine {
            Some(q) => Some(q.retry_at),
            None => None,
        },
        now,
    ) ==> retry_spec(pre, mid, now)
    &&& !reached(
        match pre.quarantine {
            Some(q) => Some(q.retry_at),
            None => None,
        },
        now,
    ) ==> mid == pre
    &&& reached(lease_due_at(mid.lease), now) ==> some_attempt(mid, post, now)
    &&& !reached(lease_due_at(mid.lease), now) ==> post == mid
}

/// What a tick does, from `pre` to `post`.
pub open spec fn tick_spec<T>(pre: Record<T>, post: Record<T>, now: u64) -> bool {
    exists|mid: Record<T>| #[trigger] tick_step(pre, mid, post, now)
}

/// The status fields for a core's state.
pub open spec fn status_words<T>(
    record: Record<T>,
    mode: PlatformMode,
    best_effort: bool,
) -> (Seq<char>, Seq<char>, Option<u64>) {
    if record.quarantine is Some {
        ("release_pending"@, "quarantine"@, None)
    } else {
        match record.lease {
            Some(l) => if l.retry_at is Some {
                ("release_pending"@, policy_name(l.clear_policy), None)
            } else if policy_mutates(l.clear_policy) {
                ("countdown"@, policy_name(l.clear_policy), l.deadline)
            } else {
                ("policy_off"@, policy_name(l.clear_policy), None)
            },
            None => (
                "idle"@,
                match mode {
                    PlatformMode::MacOs => if best_effort {
                        "best_effort_future_copies"@
                    } else {
                        "non_mutating"@
                    },
                    PlatformMode::OwnershipSafe => "ownership_safe"@,
                    PlatformMode::Unsupported => "unsupported"@,
                },
                None,
            ),
        }
    }
}

/// The wall-clock time, in milliseconds since the epoch, of a monotonic
/// `deadline` read at monotonic `now` when the wall clock read `wall_now`
/// milliseconds since the epoch (negative before it): zero for a time
/// before the epoch, saturating past `u64::MAX`.
pub open spec fn deadline_wall_ms(deadline: u64, now: u64, wall_now: i128) -> u64 {
    let remaining = if deadline > now {
        deadline - now
    } else {
        0
    };
    let total = wall_now + remaining;
    if total <= 0 {
        0
    } else if total > u64::MAX {
        u64::MAX
    } else {
        total as u64
    }
}

/// Converts a monotonic deadline to wall-clock milliseconds since the epoch.
pub fn deadline_millis(deadline: u64, now: u64, wall_now: i128) -> (ms: u64)
    ensures
        ms == deadline_wall_ms(deadline, now, wall_now),
{
    let remaining = if deadline > now {
        deadline - now
    } else {
        0
    };
    if wall_now >= 0 {
        if wall_now > (u64::MAX - remaining) as i128 {
            u64::MAX
        } else if wall_now + (remaining as i128) == 0 {
            0
        } else {
            (wall_now as u64) + remaining
        }
    } else {
        let total = wall_now + (remaining as i128);
        if total <= 0 {
            0
        } else {
            total as u64
        }
    }
}

/// A wall-clock reading in whole milliseconds since the epoch, rounded
/// down: `Ok` holds the nanoseconds since the epoch, `Err` those before it.
pub open spec fn reading_ms(reading: Result<u128, u128>) -> int {
    match reading {
        Ok(after) => (after / 1_000_000) as int,
        Err(before) => -((before + 999_999) / 1_000_000),
    }
}

/// Rounds a wall-clock reading down to whole milliseconds since the epoch.
pub fn wall_millis(reading: Result<u128, u128>) -> (ms: i128)
    ensures
        ms == reading_ms(reading),
{
    match reading {
        Ok(after) => {
            let whole = after / 1_000_000;
            assert(whole <= 340_282_366_920_938_463_463_374_607_431_768) by (nonlinear_arith)
                requires
                    whole == after / 1_000_000,
                    after <= u128::MAX,
            ;
            whole as i128
        },
        Err(before) => {
            let whole = before / 1_000_000;
            let up: u128 = if before % 1_000_000 != 0 {
                1
            } else {
                0
            };
            assert(whole <= 340_282_366_920_938_463_463_374_607_431_768) by (nonlinear_arith)
                requires
                    whole == before / 1_000_000,
                    before <= u128::MAX,
            ;
            assert(whole + up == (before + 999_999) / 1_000_000) by (nonlinear_arith)
                requires
                    whole == before / 1_000_000,
                    up == (if before % 1_000_000 != 0 {
                        1int
                    } else {
                        0int
                    }),
            ;
            -((whole + up) as i128)
        },
    }
}

/// Reads `std::time::SystemTime::now` against the Unix epoch: `Ok` with the
/// nanoseconds elapsed since it, or `Err` with the nanoseconds it lies
/// before it. The reading is the machine's clock, so no clause states it.
#[verifier::external_body]
fn wall_clock_reading() -> Result<u128, u128> {
    match std::time::SystemTime::now().duration_since(std::time::UNIX_EPOCH) {
        Ok(elapsed) => Ok(elapsed.as_nanos()),
        Err(before) => Err(before.duration().as_nanos()),
    }
}

/// `reading` is a value that a read of the machine's wall clock returned.
pub closed spec fn wall_clock_read(reading: Result<u128, u128>) -> bool {
    call_ensures(wall_clock_reading, (), reading)
}

/// When an adapter that asks to be pumped every `interval` milliseconds is
/// next due, from `now`, saturating.
pub open spec fn poll_due(now: u64, interval: Option<u64>) -> Option<u64> {
    match interval {
        Some(i) => Some(if now + i > u64::MAX {
            u64::MAX
        } else {
            (now + i) as u64
        }),
        None => None,
    }
}

/// The single owner of clipboard state: it decides when content placed by
/// this application is released, and asks the adapter to do the work.
pub struct ActorCore<A: ClipboardAdapter> {
    pub adapter: A,
    pub mode: PlatformMode,
    pub timeout_seconds: u32,
    pub macos_best_effort_clear: bool,
    pub minimum_generation: u64,
    pub lease: Option<ClipboardLease<A::Token>>,
    pub quarantine: Option<Quarantine<A::Token>>,
    pub last_release: Option<ReleaseOutcome>,
    pub release_sequence: u64,
    /// Every call made to the adapter, in order, with its answer.
    pub calls: Ghost<Seq<AdapterCall<A::Token>>>,
}

impl<A: ClipboardAdapter> ActorCore<A> {
    /// The earliest time at which `tick` has work.
    pub open spec fn due_at(&self) -> Option<u64> {
        earliest(
            lease_due_at(self.lease),
            match self.quarantine {
                Some(q) => Some(q.retry_at),
                None => None,
            },
        )
    }

    /// `interval` is a value that the adapter's `poll_interval_ms` returned.
    pub open spec fn polled(&self, interval: Option<u64>) -> bool {
        call_ensures(A::poll_interval_ms, (&self.adapter,), interval)
    }

    /// The state that operations change.
    pub open spec fn record(&self) -> Record<A::Token> {
        Record {
            lease: self.lease,
            quarantine: self.quarantine,
            last_release: self.last_release,
            release_sequence: self.release_sequence,
            calls: self.calls@,
        }
    }

    /// The timeout is a valid choice and the lease's dates fit its policy.
    pub open spec fn wf(&self) -> bool {
        &&& valid_timeout(self.timeout_seconds)
        &&& self.lease matches Some(l) ==> lease_wf(l)
    }

    /// Platform, timeout, consent and fence are those of `other`.
    pub open spec fn same_settings(&self, other: &Self) -> bool {
        &&& self.mode == other.mode
        &&& self.timeout_seconds == other.timeout_seconds
        &&& self.macos_best_effort_clear == other.macos_best_effort_clear
        &&& self.minimum_generation == other.minimum_generation
    }

    /// `status` describes this core at monotonic `now` and wall-clock `wall_now`.
    pub open spec fn describes(&self, status: ClipboardStatus, now: u64, wall_now: i128) -> bool {
        let (state, policy, deadline) = status_words(
            self.record(),
            self.mode,
            self.macos_best_effort_clear,
        );
        &&& status.state@ == state
        &&& status.policy@ == policy
        &&& status.deadline_ms == match deadline {
            Some(d) => Some(deadline_wall_ms(d, now, wall_now)),
            None => None::<u64>,
        }
        &&& status.timeout_seconds == self.timeout_seconds
        &&& status.macos_best_effort_clear == self.macos_best_effort_clear
        &&& status.last_release == self.last_release
        &&& status.release_sequence == self.release_sequence
    }

    /// `status` describes this core at `now`, with deadlines placed on the
    /// wall clock as one of its actual readings gave it.
    pub open spec fn reports(&self, status: ClipboardStatus, now: u64) -> bool {
        exists|reading: Result<u128, u128>|
            #![trigger wall_clock_read(reading)]
            wall_clock_read(reading) && self.describes(status, now, reading_ms(reading) as i128)
    }

    /// A core with the default timeout, best-effort clearing off, no lease and
    /// no release recorded.
    pub fn new(adapter: A, mode: PlatformMode) -> (core: Self)
        ensures
            core.adapter == adapter,
            core.mode == mode,
            core.timeout_seconds == DEFAULT_TIMEOUT_SECONDS,
            !core.macos_best_effort_clear,
            core.minimum_generation == 0,
            core.lease is None,
            core.quarantine is None,
            core.last_release is None,
            core.release_sequence == 0,
            core.calls@ == Seq::<AdapterCall<A::Token>>::empty(),
            core.wf(),
    {
        ActorCore {
            adapter,
            mode,
            timeout_seconds: DEFAULT_TIMEOUT_SECONDS,
            macos_best_effort_clear: false,
            minimum_generation: 0,
            lease: None,
            quarantine: None,
            last_release: None,
            release_sequence: 0,
            calls: Ghost(Seq::empty()),
        }
    }

    fn timeout_ms(&self) -> (ms: u64)
        requires
            valid_timeout(self.timeout_seconds),
        ensures
            ms == self.timeout_seconds * 1000,
    {
        (self.timeout_seconds as u64) * 1000
    }

    /// The policy that a copy made now would get.
    pub fn policy_for_new_copy(&self) -> (policy: ClearPolicy)
        ensures
            policy == policy_for(self.mode, self.macos_best_effort_clear),
    {
        match self.mode {
            PlatformMode::OwnershipSafe => ClearPolicy::OwnershipSafe,
            PlatformMode::MacOs => if self.macos_best_effort_clear {
                ClearPolicy::BestEffortArmed
            } else {
                ClearPolicy::NonMutating
            },
            PlatformMode::Unsupported => ClearPolicy::OwnershipSafe,
        }
    }

    /// Records a release outcome and advances the release sequence.
    pub fn note_release(&mut self, outcome: ReleaseOutcome)
        ensures
            final(self).last_release == Some(outcome),
            final(self).release_sequence == bumped(old(self).release_sequence),
            final(self).lease == old(self).lease,
            final(self).quarantine == old(self).quarantine,
            final(self).adapter == old(self).adapter,
            final(self).calls == old(self).calls,
            final(self).same_settings(old(self)),
    {
        self.release_sequence = self.release_sequence.saturating_add(1);
        self.last_release = Some(outcome);
    }

    /// The status at monotonic `now` and wall-clock `wall_now`.
    pub fn status_at(&self, now: u64, wall_now: i128) -> (status: ClipboardStatus)
        ensures
            self.describes(status, now, wall_now),
    {
        let (state, policy, deadline): (&'static str, &'static str, Option<u64>) = match &self.quarantine {
            Some(_) => ("release_pending", "quarantine", None),
            None => match &self.lease {
                Some(lease) => if lease.retry_at.is_some() {
                    ("release_pending", lease.clear_policy.as_str(), None)
                } else if lease.clear_policy.mutates() {
                    ("countdown", lease.clear_policy.as_str(), lease.deadline)
                } else {
                    ("policy_off", lease.clear_policy.as_str(), None)
                },
                None => {
                    let policy: &'static str = match self.mode {
                        PlatformMode::MacOs => if self.macos_best_effort_clear {
                            "best_effort_future_copies"
                        } else {
                            "non_mutating"
                        },
                        PlatformMode::OwnershipSafe => "ownership_safe",
                        PlatformMode::Unsupported => "unsupported",
                    };
                    ("idle", policy, None)
                },
            },
        };
        let deadline_ms = match deadline {
            Some(d) => Some(deadline_millis(d, now, wall_now)),
            None => None,
        };
        ClipboardStatus {
            state,
            policy,
            deadline_ms,
            timeout_seconds: self.timeout_seconds,
            macos_best_effort_clear: self.macos_best_effort_clear,
            last_release: self.last_release,
            release_sequence: self.release_sequence,
        }
    }

    /// The status at monotonic `now`, with deadlines on the wall clock.
    pub fn status(&self, now: u64) -> (status: ClipboardStatus)
        ensures
            self.reports(status, now),
    {
        let reading = wall_clock_reading();
        let wall_now = wall_millis(reading);
        let status = self.status_at(now, wall_now);
        assert(wall_clock_read(reading));
        status
    }

    /// Asks the adapter to clear content whose commit was uncertain. A busy
    /// clipboard puts it in quarantine for bounded retries.
    pub fn start_quarantine(&mut self, token: A::Token, now: u64)
        requires
            now <= TIME_LIMIT_MS,
        ensures
            final(self).lease == old(self).lease,
            final(self).same_settings(old(self)),
            one_clear(old(self).calls@, final(self).calls@, token),
            final(self).release_sequence == bumped(old(self).release_sequence),
            final(self).last_release == Some(reported(clear_answer(final(self).calls@.last()))),
            final(self).quarantine == if clear_answer(final(self).calls@.last()) == ClearOutcome::Busy {
                Some(
                    Quarantine {
                        token,
                        retry_at: (now + BUSY_RETRY_MS) as u64,
                        attempts_remaining: (UNCERTAIN_MAX_ATTEMPTS - 1) as u8,
                    },
                )
            } else {
                old(self).quarantine
            },
    {
        let outcome = self.adapter.clear_owned(&token);
        self.calls = Ghost(self.calls@.push(AdapterCall::Clear { token, outcome }));
        self.note_release(release_outcome_of(outcome));
        if matches!(outcome, ClearOutcome::Busy) {
            self.quarantine = Some(
                Quarantine {
                    token,
                    retry_at: now + BUSY_RETRY_MS,
                    attempts_remaining: UNCERTAIN_MAX_ATTEMPTS - 1,
                },
            );
        }
    }

    /// Records what the adapter answered to clearing the current lease, whose
    /// policy clears: a busy clipboard keeps the lease, to be retried
    /// shortly; any other answer ends it.
    pub fn settle_release(&mut self, cleared: ClearOutcome, now: u64) -> (outcome: ReleaseOutcome)
        requires
            old(self).wf(),
            now <= TIME_LIMIT_MS,
            old(self).lease matches Some(l) && policy_mutates(l.clear_policy),
        ensures
            final(self).wf(),
            final(self).same_settings(old(self)),
            final(self).adapter == old(self).adapter,
            final(self).calls == old(self).calls,
            outcome == reported(cleared),
            final(self).last_release == Some(outcome),
            final(self).release_sequence == bumped(old(self).release_sequence),
            final(self).quarantine == old(self).quarantine,
            final(self).lease == if cleared == ClearOutcome::Busy {
                Some(waiting(old(self).lease->Some_0, now))
            } else {
                None
            },
    {
        let outcome = release_outcome_of(cleared);
        self.note_release(outcome);
        if matches!(cleared, ClearOutcome::Busy) {
            match self.lease.take() {
                Some(lease) => {
                    self.lease = Some(
                        ClipboardLease {
                            generation: lease.generation,
                            token: lease.token,
                            copied_at: lease.copied_at,
                            deadline: None,
                            clear_policy: lease.clear_policy,
                            retry_at: Some(now + BUSY_RETRY_MS),
                        },
                    );
                },
                None => {},
            }
        } else {
            self.lease = None;
        }
        outcome
    }

    /// One release attempt for the current lease; see `attempt_spec`.
    pub fn attempt_release(&mut self, now: u64) -> (outcome: Option<ReleaseOutcome>)
        requires
            old(self).wf(),
            now <= TIME_LIMIT_MS,
        ensures
            final(self).wf(),
            final(self).same_settings(old(self)),
            attempt_spec(old(self).record(), final(self).record(), outcome, now),
            old(self).lease is None ==> final(self).adapter == old(self).adapter,
            old(self).lease matches Some(l) && !policy_mutates(l.clear_policy) ==> final(self).adapter
                == old(self).adapter,
    {
        let policy = match &self.lease {
            Some(lease) => lease.clear_policy,
            None => return None,
        };
        if !policy.mutates() {
            self.lease = None;
            let outcome = ReleaseOutcome::SuppressedByPolicy;
            self.note_release(outcome);
            return Some(outcome);
        }
        let ghost token = self.lease->Some_0.token;
        let cleared = match &self.lease {
            Some(lease) => self.adapter.clear_owned(&lease.token),
            None => return None,
        };
        self.calls = Ghost(self.calls@.push(AdapterCall::Clear { token, outcome: cleared }));
        Some(self.settle_release(cleared, now))
    }

    /// Releases the current lease, if any, and reports the status. Only a
    /// fatal clipboard failure is an error; with nothing to release the last
    /// release is forgotten.
    pub fn release(&mut self, now: u64) -> (result: Result<ClipboardStatus, ClipboardError>)
        requires
            old(self).wf(),
            now <= TIME_LIMIT_MS,
        ensures
            final(self).wf(),
            final(self).same_settings(old(self)),
            old(self).lease is None ==> {
                &&& final(self).lease is None
                &&& final(self).quarantine == old(self).quarantine
                &&& final(self).last_release is None
                &&& final(self).release_sequence == old(self).release_sequence
                &&& final(self).adapter == old(self).adapter
                &&& final(self).calls == old(self).calls
            },
            old(self).lease is Some ==> attempt_spec(
                old(self).record(),
                final(self).record(),
                final(self).last_release,
                now,
            ),
            result is Err <==> final(self).last_release == Some(ReleaseOutcome::Fatal),
            result matches Err(e) ==> e == ClipboardError::ReleaseFailed,
            result matches Ok(status) ==> final(self).reports(status, now),
    {
        let outcome = self.attempt_release(now);
        if outcome.is_none() {
            self.last_release = None;
        }
        if matches!(outcome, Some(ReleaseOutcome::Fatal)) {
            Err(ClipboardError::ReleaseFailed)
        } else {
            Ok(self.status(now))
        }
    }

    /// Raises the copy fence to `generation` and releases the lease when it
    /// belongs to an older generation. A lease of this generation or newer is
    /// never touched.
    pub fn invalidate_before(&mut self, generation: u64, now: u64) -> (result: Result<
        ClipboardStatus,
        ClipboardError,
    >)
        requires
            old(self).wf(),
            now <= TIME_LIMIT_MS,
        ensures
            final(self).wf(),
            final(self).minimum_generation == if generation > old(self).minimum_generation {
                generation
            } else {
                old(self).minimum_generation
            },
            final(self).mode == old(self).mode,
            final(self).timeout_seconds == old(self).timeout_seconds,
            final(self).macos_best_effort_clear == old(self).macos_best_effort_clear,
            old(self).lease matches Some(l) && l.generation < generation ==> {
                &&& attempt_spec(old(self).record(), final(self).record(), final(self).last_release, now)
                &&& (result is Err <==> final(self).last_release == Some(ReleaseOutcome::Fatal))
            },
            !(old(self).lease matches Some(l) && l.generation < generation) ==> {
                &&& final(self).lease == old(self).lease
                &&& final(self).quarantine == old(self).quarantine
                &&& final(self).last_release is None
                &&& final(self).release_sequence == old(self).release_sequence
                &&& final(self).adapter == old(self).adapter
                &&& final(self).calls == old(self).calls
                &&& result is Ok
            },
            result matches Err(e) ==> e == ClipboardError::ReleaseFailed,
            result matches Ok(status) ==> final(self).reports(status, now),
    {
        if generation > self.minimum_generation {
            self.minimum_generation = generation;
        }
        let clears_current = match &self.lease {
            Some(lease) => lease.generation < generation,
            None => false,
        };
        if clears_current {
            self.release(now)
        } else {
            self.last_release = None;
            Ok(self.status(now))
        }
    }

    /// Settles a copy for `generation` that the adapter answered `outcome`;
    /// see `copy_settled`. A committed copy becomes the lease, under the
    /// policy and timeout a new copy gets now.
    pub fn settle_copy(&mut self, outcome: CopyOutcome<A::Token>, generation: u64, now: u64) -> (result:
        Result<ClipboardStatus, ClipboardError>)
        requires
            old(self).wf(),
            now <= TIME_LIMIT_MS,
        ensures
            final(self).wf(),
            final(self).same_settings(old(self)),
            copy_settled(
                old(self).record(),
                final(self).record(),
                outcome,
                generation,
                policy_for(old(self).mode, old(self).macos_best_effort_clear),
                old(self).timeout_seconds,
                now,
                result,
            ),
            result matches Ok(status) ==> final(self).reports(status, now),
    {
        match outcome {
            CopyOutcome::PreCommitFailure => Err(ClipboardError::PreCommitFailure),
            CopyOutcome::Unsupported => Err(ClipboardError::Unsupported),
            CopyOutcome::DestructiveFailure => {
                self.lease = None;
                self.quarantine = None;
                self.last_release = None;
                Err(ClipboardError::DestructiveFailure)
            },
            CopyOutcome::CommitUncertain(token) => {
                self.lease = None;
                self.quarantine = None;
                self.last_release = None;
                match token {
                    Some(token) => self.start_quarantine(token, now),
                    None => {},
                }
                Err(ClipboardError::CommitUncertain)
            },
            CopyOutcome::Committed(token) => {
                let clear_policy = self.policy_for_new_copy();
                let deadline = if clear_policy.mutates() {
                    Some(now + self.timeout_ms())
                } else {
                    None
                };
                self.quarantine = None;
                self.last_release = None;
                self.lease = Some(
                    ClipboardLease {
                        generation,
                        token,
                        copied_at: now,
                        deadline,
                        clear_policy,
                        retry_at: None,
                    },
                );
                Ok(self.status(now))
            },
        }
    }

    /// Places `text` on the clipboard for `generation` and starts its lease.
    ///
    /// A generation older than the fence is refused before the adapter is
    /// asked. Otherwise the adapter is asked once to copy `text`, and its
    /// answer is settled by `settle_copy`.
    pub fn copy(&mut self, text: &str, generation: u64, now: u64) -> (result: Result<
        ClipboardStatus,
        ClipboardError,
    >)
        requires
            old(self).wf(),
            now <= TIME_LIMIT_MS,
        ensures
            final(self).wf(),
            final(self).same_settings(old(self)),
            generation < old(self).minimum_generation ==> result == Err::<ClipboardStatus, ClipboardError>(
                ClipboardError::StaleGeneration,
            ) && *final(self) == *old(self),
            generation >= old(self).minimum_generation ==> {
                let answer = copy_answer(final(self).calls@[old(self).calls@.len() as int]);
                let asked = Record {
                    calls: old(self).calls@.push(AdapterCall::Copy { text: text@, answer }),
                    ..old(self).record()
                };
                &&& old(self).calls@.len() < final(self).calls@.len()
                &&& final(self).calls@[old(self).calls@.len() as int] == AdapterCall::Copy { text: text@, answer }
                &&& copy_settled(
                    asked,
                    final(self).record(),
                    answer,
                    generation,
                    policy_for(old(self).mode, old(self).macos_best_effort_clear),
                    old(self).timeout_seconds,
                    now,
                    result,
                )
                &&& result matches Ok(status) ==> final(self).reports(status, now)
            },
    {
        if generation < self.minimum_generation {
            return Err(ClipboardError::StaleGeneration);
        }
        let outcome = self.adapter.copy(text);
        let ghost start = self.calls@;
        self.calls = Ghost(self.calls@.push(AdapterCall::Copy { text: text@, answer: outcome }));
        let result = self.settle_copy(outcome, generation, now);
        assert(self.calls@[start.len() as int] == AdapterCall::Copy { text: text@, answer: outcome });
        result
    }

    /// Sets the release timeout to `seconds`: 5 to 60 in steps of 5.
    ///
    /// A pending countdown restarts from its copy time, so a deadline that
    /// has already passed releases at once; a lease waiting on a busy
    /// clipboard keeps waiting; a lease that never clears gets no deadline.
    pub fn set_timeout(&mut self, seconds: u32, now: u64) -> (result: Result<
        ClipboardStatus,
        ClipboardError,
    >)
        requires
            old(self).wf(),
            now <= TIME_LIMIT_MS,
        ensures
            final(self).wf(),
            !valid_timeout(seconds) ==> result == Err::<ClipboardStatus, ClipboardError>(
                ClipboardError::InvalidTimeout,
            ) && *final(self) == *old(self),
            valid_timeout(seconds) ==> {
                let pre = Record {
                    lease: match old(self).lease {
                        Some(l) => Some(retimed(l, seconds)),
                        None => None,
                    },
                    quarantine: old(self).quarantine,
                    last_release: old(self).last_release,
                    release_sequence: old(self).release_sequence,
                    calls: old(self).calls@,
                };
                &&& final(self).timeout_seconds == seconds
                &&& final(self).mode == old(self).mode
                &&& final(self).macos_best_effort_clear == old(self).macos_best_effort_clear
                &&& final(self).minimum_generation == old(self).minimum_generation
                &&& reached(lease_deadline(pre.lease), now) ==> some_attempt(pre, final(self).record(), now)
                &&& !reached(lease_deadline(pre.lease), now) ==> final(self).record() == pre
                &&& result matches Ok(status) && final(self).reports(status, now)
            },
    {
        if !(5 <= seconds && seconds <= 60) || seconds % 5 != 0 {
            return Err(ClipboardError::InvalidTimeout);
        }
        self.timeout_seconds = seconds;
        let timeout_ms = self.timeout_ms();
        match self.lease.take() {
            Some(lease) => {
                let mutates = lease.clear_policy.mutates();
                let deadline = if mutates && lease.retry_at.is_none() {
                    Some(lease.copied_at + timeout_ms)
                } else if !mutates {
                    None
                } else {
                    lease.deadline
                };
                self.lease = Some(
                    ClipboardLease {
                        generation: lease.generation,
                        token: lease.token,
                        copied_at: lease.copied_at,
                        deadline,
                        clear_policy: lease.clear_policy,
                        retry_at: lease.retry_at,
                    },
                );
            },
            None => {},
        }
        let due = match &self.lease {
            Some(lease) => match lease.deadline {
                Some(deadline) => deadline <= now,
                None => false,
            },
            None => false,
        };
        let ghost pre = self.record();
        assert(pre == Record {
            lease: match old(self).lease {
                Some(l) => Some(retimed(l, seconds)),
                None => None,
            },
            quarantine: old(self).quarantine,
            last_release: old(self).last_release,
            release_sequence: old(self).release_sequence,
            calls: old(self).calls@,
        });
        if due {
            let outcome = self.attempt_release(now);
            assert(attempt_spec(pre, self.record(), outcome, now));
            assert(some_attempt(pre, self.record(), now));
        }
        Ok(self.status(now))
    }

    /// Turns best-effort clearing for future copies on or off; macOS only.
    ///
    /// Turning it off disarms an armed lease for good: it keeps its content
    /// and will not be cleared. Turning it on never re-arms a lease.
    pub fn set_macos_best_effort(&mut self, enabled: bool, now: u64) -> (result: Result<
        ClipboardStatus,
        ClipboardError,
    >)
        requires
            old(self).wf(),
        ensures
            final(self).wf(),
            old(self).mode != PlatformMode::MacOs ==> result == Err::<ClipboardStatus, ClipboardError>(
                ClipboardError::Unsupported,
            ) && *final(self) == *old(self),
            old(self).mode == PlatformMode::MacOs ==> {
                &&& final(self).macos_best_effort_clear == enabled
                &&& final(self).mode == old(self).mode
                &&& final(self).timeout_seconds == old(self).timeout_seconds
                &&& final(self).minimum_generation == old(self).minimum_generation
                &&& final(self).lease == if enabled {
                    old(self).lease
                } else {
                    match old(self).lease {
                        Some(l) => Some(disarmed(l)),
                        None => None,
                    }
                }
                &&& final(self).quarantine == old(self).quarantine
                &&& final(self).last_release == old(self).last_release
                &&& final(self).release_sequence == old(self).release_sequence
                &&& final(self).adapter == old(self).adapter
                &&& final(self).calls == old(self).calls
                &&& result matches Ok(status) && final(self).reports(status, now)
            },
    {
        if !matches!(self.mode, PlatformMode::MacOs) {
            return Err(ClipboardError::Unsupported);
        }
        self.macos_best_effort_clear = enabled;
        if !enabled {
            match self.lease.take() {
                Some(lease) => {
                    if matches!(lease.clear_policy, ClearPolicy::BestEffortArmed) {
                        self.lease = Some(
                            ClipboardLease {
                                generation: lease.generation,
                                token: lease.token,
                                copied_at: lease.copied_at,
                                deadline: None,
                                clear_policy: ClearPolicy::BestEffortDisarmed,
                                retry_at: None,
                            },
                        );
                    } else {
                        self.lease = Some(lease);
                    }
                },
                None => {},
            }
        }
        Ok(self.status(now))
    }

    /// The earliest time at which `tick` has work: a lease's retry or
    /// deadline, or the quarantine's retry.
    pub fn next_due(&self) -> (due: Option<u64>)
        ensures
            due == self.due_at(),
    {
        let lease_due = match &self.lease {
            Some(lease) => match lease.retry_at {
                Some(retry) => Some(retry),
                None => lease.deadline,
            },
            None => None,
        };
        let quarantine_due = match &self.quarantine {
            Some(quarantine) => Some(quarantine.retry_at),
            None => None,
        };
        match (lease_due, quarantine_due) {
            (Some(left), Some(right)) => Some(if left <= right {
                left
            } else {
                right
            }),
            (Some(value), None) => Some(value),
            (None, Some(value)) => Some(value),
            (None, None) => None,
        }
    }

    /// Retries the quarantined clear; see `retry_spec`.
    pub fn retry_quarantine(&mut self, now: u64)
        requires
            old(self).wf(),
            now <= TIME_LIMIT_MS,
        ensures
            final(self).wf(),
            final(self).same_settings(old(self)),
            retry_spec(old(self).record(), final(self).record(), now),
    {
        let ghost token = self.quarantine->Some_0.token;
        let cleared = match &self.quarantine {
            Some(quarantine) => self.adapter.clear_owned(&quarantine.token),
            None => return ,
        };
        self.calls = Ghost(self.calls@.push(AdapterCall::Clear { token, outcome: cleared }));
        self.note_release(release_outcome_of(cleared));
        match self.quarantine.take() {
            Some(quarantine) => {
                if matches!(cleared, ClearOutcome::Busy) && quarantine.attempts_remaining > 1 {
                    self.quarantine = Some(
                        Quarantine {
                            token: quarantine.token,
                            retry_at: now + BUSY_RETRY_MS,
                            attempts_remaining: quarantine.attempts_remaining - 1,
                        },
                    );
                }
            },
            None => {},
        }
    }

    /// Does the work that has come due at `now`: first the quarantine's
    /// retry, then the lease's retry or deadline.
    pub fn tick(&mut self, now: u64)
        requires
            old(self).wf(),
            now <= TIME_LIMIT_MS,
        ensures
            final(self).wf(),
            final(self).same_settings(old(self)),
            tick_spec(old(self).record(), final(self).record(), now),
    {
        let quarantine_due = match &self.quarantine {
            Some(quarantine) => quarantine.retry_at <= now,
            None => false,
        };
        if quarantine_due {
            self.retry_quarantine(now);
        }
        let ghost mid = self.record();
        let lease_due = match &self.lease {
            Some(lease) => match lease.retry_at {
                Some(retry) => retry <= now,
                None => match lease.deadline {
                    Some(deadline) => deadline <= now,
                    None => false,
                },
            },
            None => false,
        };
        assert(lease_due == reached(lease_due_at(mid.lease), now));
        if lease_due {
            let outcome = self.attempt_release(now);
            assert(attempt_spec(mid, self.record(), outcome, now));
            assert(some_attempt(mid, self.record(), now));
        }
        assert(tick_step(old(self).record(), mid, self.record(), now));
    }

    /// When the actor loop must wake next, at monotonic `now`: the earliest
    /// of `next_due` and the adapter's next poll.
    pub fn wake_at(&self, now: u64) -> (wake: Option<u64>)
        requires
            now <= TIME_LIMIT_MS,
        ensures
            exists|interval: Option<u64>|
                #![trigger self.polled(interval)]
                self.polled(interval) && wake == earliest(self.due_at(), poll_due(now, interval)),
    {
        let core_due = self.next_due();
        let interval = self.adapter.poll_interval_ms();
        let adapter_due = match interval {
            Some(interval) => Some(now.saturating_add(interval)),
            None => None,
        };
        let wake = match (core_due, adapter_due) {
            (Some(left), Some(right)) => Some(if left <= right {
                left
            } else {
                right
            }),
            (Some(value), None) => Some(value),
            (None, Some(value)) => Some(value),
            (None, None) => None,
        };
        assert(adapter_due == poll_due(now, interval));
        assert(wake == earliest(self.due_at(), poll_due(now, interval)));
        assert(self.polled(interval));
        wake
    }
}

/// The release sequence never goes back: a release attempt, a quarantine
/// retry and a whole tick each leave it equal or larger.
pub proof fn lemma_release_sequence_never_decreases<T>(
    pre: Record<T>,
    post: Record<T>,
    outcome: Option<ReleaseOutcome>,
    now: u64,
)
    ensures
        attempt_spec(pre, post, outcome, now) ==> post.release_sequence >= pre.release_sequence,
        retry_spec(pre, post, now) ==> post.release_sequence >= pre.release_sequence,
        tick_spec(pre, post, now) ==> post.release_sequence >= pre.release_sequence,
{
    if tick_spec(pre, post, now) {
        let mid = choose|mid: Record<T>| #[trigger] tick_step(pre, mid, post, now);
        assert(mid.release_sequence >= pre.release_sequence);
        if reached(lease_due_at(mid.lease), now) {
            let r = choose|r: Option<ReleaseOutcome>| #[trigger] attempt_spec(mid, post, r, now);
            assert(post.release_sequence >= mid.release_sequence);
        }
    }
}

/// A lease whose policy does not clear is never handed to the adapter's
/// clear: its release is reported as suppressed and the lease is dropped.
pub proof fn lemma_non_clearing_lease_is_only_suppressed<T>(
    pre: Record<T>,
    post: Record<T>,
    outcome: Option<ReleaseOutcome>,
    now: u64,
)
    requires
        pre.lease matches Some(l) && !policy_mutates(l.clear_policy),
        attempt_spec(pre, post, outcome, now),
    ensures
        outcome == Some(ReleaseOutcome::SuppressedByPolicy),
        post.lease is None,
        post.quarantine == pre.quarantine,
        post.calls == pre.calls,
{
}

/// Disarming is for good: a disarmed lease never clears, and neither a new
/// timeout, a busy retry nor another disarm arms it again.
pub proof fn lemma_disarm_is_irreversible<T>(lease: ClipboardLease<T>, seconds: u32, now: u64)
    ensures
        disarmed(lease).clear_policy != ClearPolicy::BestEffortArmed,
        lease.clear_policy == ClearPolicy::BestEffortArmed ==> disarmed(lease).clear_policy
            == ClearPolicy::BestEffortDisarmed,
        lease.clear_policy == ClearPolicy::BestEffortDisarmed ==> {
            &&& disarmed(lease) == lease
            &&& retimed(lease, seconds).clear_policy == ClearPolicy::BestEffortDisarmed
            &&& retimed(lease, seconds).deadline is None
            &&& waiting(lease, now).clear_policy == ClearPolicy::BestEffortDisarmed
            &&& !policy_mutates(lease.clear_policy)
        },
{
}

/// A new timeout is measured from the original copy: setting the timeout
/// twice is the same as setting it once to the later value.
pub proof fn lemma_timeout_counts_from_copy_time<T>(lease: ClipboardLease<T>, first: u32, second: u32)
    ensures
        retimed(retimed(lease, first), second) == retimed(lease, second),
        policy_mutates(lease.clear_policy) && lease.retry_at is None ==> retimed(
            lease,
            second,
        ).deadline == Some((lease.copied_at + second * 1000) as u64),
{
}

/// Uncertain content is retried a bounded number of times: every retry that
/// keeps the quarantine spends one attempt, at least one attempt stays, and
/// a release attempt of the lease never touches the quarantine.
pub proof fn lemma_quarantine_attempts_shrink<T>(
    pre: Record<T>,
    post: Record<T>,
    outcome: Option<ReleaseOutcome>,
    now: u64,
)
    ensures
        retry_spec(pre, post, now) && post.quarantine is Some ==> {
            &&& pre.quarantine is Some
            &&& post.quarantine->Some_0.attempts_remaining + 1 == pre.quarantine->Some_0.attempts_remaining
            &&& post.quarantine->Some_0.attempts_remaining >= 1
        },
        attempt_spec(pre, post, outcome, now) ==> post.quarantine == pre.quarantine,
{
}

/// A reported countdown ends, on the wall clock, as long after an actual
/// reading of that clock as the lease has left on the monotonic clock.
pub proof fn lemma_countdown_deadline_follows_wall_clock<A: ClipboardAdapter>(
    core: ActorCore<A>,
    status: ClipboardStatus,
    now: u64,
    deadline: u64,
)
    requires
        core.reports(status, now),
        core.quarantine is None,
        core.lease matches Some(l) && l.retry_at is None && policy_mutates(l.clear_policy) && l.deadline
            == Some(deadline),
    ensures
        exists|reading: Result<u128, u128>|
            #![trigger wall_clock_read(reading)]
            wall_clock_read(reading) && (status.deadline_ms matches Some(ms) && {
                let remaining = if deadline > now { deadline - now } else { 0int };
                0 <= reading_ms(reading) + remaining <= u64::MAX ==> ms == reading_ms(reading) + remaining
            }),
{
    let reading = choose|reading: Result<u128, u128>|
        #![trigger wall_clock_read(reading)]
        wall_clock_read(reading) && core.describes(status, now, reading_ms(reading) as i128);
    assert(wall_clock_read(reading));
}

/// The actor sleeps past neither the core's next due time nor the adapter's
/// next poll: it wakes at the earlier of the two, and only when one exists.
pub proof fn lemma_wake_bounds<A: ClipboardAdapter>(
    core: ActorCore<A>,
    now: u64,
    interval: Option<u64>,
    wake: Option<u64>,
)
    requires
        core.polled(interval),
        wake == earliest(core.due_at(), poll_due(now, interval)),
    ensures
        interval matches Some(i) ==> wake matches Some(w) && (w <= now + i),
        core.due_at() matches Some(d) ==> wake matches Some(w) && w <= d,
        wake matches Some(w) ==> core.due_at() == Some(w) || poll_due(now, interval) == Some(w),
        wake is None <==> core.due_at() is None && interval is None,
{
}

} // verus!
