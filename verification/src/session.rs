use vstd::prelude::*;

use crate::clipboard::ClipboardError;
use crate::generator::{zeroize_strings, GenerateError};
use crate::window_service::WindowServiceError;

verus! {

/// Why a frontend command was refused.
#[derive(Clone, Copy, Debug, Eq, PartialEq)]
pub enum CommandError {
    Unsupported,
    UnauthorizedWindow,
    InvalidCount,
    InvalidLength,
    NoCharacterGroups,
    EntropyUnavailable,
    StateUnavailable,
    BatchIdExhausted,
    StaleBatch,
    RowOutOfRange,
    StaleViewEpoch,
    InvalidTimeout,
    InvalidCollapsedOpacity,
    ClipboardUnavailable,
    ClipboardCopyFailed,
    ClipboardDestructiveFailure,
    ClipboardCommitUncertain,
    ClipboardReleaseFailed,
    InvalidWindowGeometry,
    WindowUnavailable,
    StaleCloseTicket,
    CloseInProgress,
}

/// The command error that reports a generator error.
pub open spec fn command_error_for_generate(error: GenerateError) -> CommandError {
    match error {
        GenerateError::CountOutOfRange { .. } => CommandError::InvalidCount,
        GenerateError::LengthOutOfRange { .. } => CommandError::InvalidLength,
        GenerateError::NoCharacterGroups => CommandError::NoCharacterGroups,
        GenerateError::Entropy(_) => CommandError::EntropyUnavailable,
    }
}

/// The command error that reports a clipboard error.
pub open spec fn command_error_for_clipboard(error: ClipboardError) -> CommandError {
    match error {
        ClipboardError::ActorUnavailable => CommandError::ClipboardUnavailable,
        ClipboardError::InvalidTimeout => CommandError::InvalidTimeout,
        ClipboardError::Unsupported => CommandError::Unsupported,
        ClipboardError::PreCommitFailure => CommandError::ClipboardCopyFailed,
        ClipboardError::DestructiveFailure => CommandError::ClipboardDestructiveFailure,
        ClipboardError::CommitUncertain => CommandError::ClipboardCommitUncertain,
        ClipboardError::StaleGeneration => CommandError::StaleBatch,
        ClipboardError::ReleaseFailed => CommandError::ClipboardReleaseFailed,
    }
}

/// The command error that reports a window error.
pub open spec fn command_error_for_window(error: WindowServiceError) -> CommandError {
    match error {
        WindowServiceError::InvalidContentHeight => CommandError::InvalidWindowGeometry,
        WindowServiceError::InvalidGeometry => CommandError::InvalidWindowGeometry,
        WindowServiceError::UnexpectedWindowLabel { .. } => CommandError::UnauthorizedWindow,
        WindowServiceError::MonitorUnavailable => CommandError::WindowUnavailable,
    }
}

impl From<GenerateError> for CommandError {
    fn from(error: GenerateError) -> (r: Self) {
        match error {
            GenerateError::CountOutOfRange { .. } => CommandError::InvalidCount,
            GenerateError::LengthOutOfRange { .. } => CommandError::InvalidLength,
            GenerateError::NoCharacterGroups => CommandError::NoCharacterGroups,
            GenerateError::Entropy(_) => CommandError::EntropyUnavailable,
        }
    }
}

impl vstd::std_specs::convert::FromSpecImpl<GenerateError> for CommandError {
    open spec fn obeys_from_spec() -> bool {
        true
    }

    open spec fn from_spec(error: GenerateError) -> CommandError {
        command_error_for_generate(error)
    }
}

impl From<ClipboardError> for CommandError {
    fn from(error: ClipboardError) -> (r: Self) {
        match error {
            ClipboardError::ActorUnavailable => CommandError::ClipboardUnavailable,
            ClipboardError::InvalidTimeout => CommandError::InvalidTimeout,
            ClipboardError::Unsupported => CommandError::Unsupported,
            ClipboardError::PreCommitFailure => CommandError::ClipboardCopyFailed,
            ClipboardError::DestructiveFailure => CommandError::ClipboardDestructiveFailure,
            ClipboardError::CommitUncertain => CommandError::ClipboardCommitUncertain,
            ClipboardError::StaleGeneration => CommandError::StaleBatch,
            ClipboardError::ReleaseFailed => CommandError::ClipboardReleaseFailed,
        }
    }
}

impl vstd::std_specs::convert::FromSpecImpl<ClipboardError> for CommandError {
    open spec fn obeys_from_spec() -> bool {
        true
    }

    open spec fn from_spec(error: ClipboardError) -> CommandError {
        command_error_for_clipboard(error)
    }
}

impl From<WindowServiceError> for CommandError {
    fn from(error: WindowServiceError) -> (r: Self) {
        match error {
            WindowServiceError::InvalidContentHeight => CommandError::InvalidWindowGeometry,
            WindowServiceError::InvalidGeometry => CommandError::InvalidWindowGeometry,
            WindowServiceError::UnexpectedWindowLabel { .. } => CommandError::UnauthorizedWindow,
            WindowServiceError::MonitorUnavailable => CommandError::WindowUnavailable,
        }
    }
}

impl vstd::std_specs::convert::FromSpecImpl<WindowServiceError> for CommandError {
    open spec fn obeys_from_spec() -> bool {
        true
    }

    open spec fn from_spec(error: WindowServiceError) -> CommandError {
        command_error_for_window(error)
    }
}

/// The character of decimal digit `d`.
pub open spec fn digit_char(d: nat) -> char {
    (48 + d) as char
}

/// The decimal numeral of `n`, without leading zeros.
pub open spec fn decimal(n: nat) -> Seq<char>
    decreases n,
{
    if n < 10 {
        seq![digit_char(n)]
    } else {
        decimal(n / 10).push(digit_char(n % 10))
    }
}

/// A decimal numeral has at least one digit.
pub proof fn lemma_decimal_nonempty(n: nat)
    ensures
        decimal(n).len() >= 1,
        n >= 10 ==> decimal(n).len() >= 2,
    decreases n,
{
    if n >= 10 {
        lemma_decimal_nonempty(n / 10);
    }
}

/// Different numbers have different numerals.
pub proof fn lemma_decimal_injective(a: nat, b: nat)
    requires
        decimal(a) == decimal(b),
    ensures
        a == b,
    decreases a,
{
    lemma_decimal_nonempty(a);
    lemma_decimal_nonempty(b);
    if a < 10 {
        if b >= 10 {
            assert(decimal(b).len() >= 2);
        }
        assert(decimal(a)[0] == digit_char(a));
        assert(decimal(b)[0] == digit_char(b));
    } else {
        if b < 10 {
            assert(decimal(a).len() >= 2);
        }
        let da = decimal(a);
        let db = decimal(b);
        assert(da.last() == digit_char(a % 10));
        assert(db.last() == digit_char(b % 10));
        assert(da.drop_last() =~= decimal(a / 10));
        assert(db.drop_last() =~= decimal(b / 10));
        lemma_decimal_injective(a / 10, b / 10);
    }
}

fn digit_text(d: u64) -> (text: &'static str)
    requires
        d < 10,
    ensures
        text@ == seq![digit_char(d as nat)],
{
    proof {
        reveal_strlit("0");
        reveal_strlit("1");
        reveal_strlit("2");
        reveal_strlit("3");
        reveal_strlit("4");
        reveal_strlit("5");
        reveal_strlit("6");
        reveal_strlit("7");
        reveal_strlit("8");
        reveal_strlit("9");
    }
    match d {
        0 => "0",
        1 => "1",
        2 => "2",
        3 => "3",
        4 => "4",
        5 => "5",
        6 => "6",
        7 => "7",
        8 => "8",
        _ => "9",
    }
}

/// The decimal numeral of `n`.
pub fn decimal_text(n: u64) -> (text: String)
    ensures
        text@ == decimal(n as nat),
    decreases n,
{
    if n < 10 {
        let mut text = String::new();
        text.append(digit_text(n));
        assert(text@ =~= decimal(n as nat));
        text
    } else {
        let mut text = decimal_text(n / 10);
        text.append(digit_text(n % 10));
        assert(text@ =~= decimal(n as nat));
        text
    }
}

/// A committed batch: its opaque id, the view epoch it was generated for,
/// and its passwords.
pub struct BatchView {
    pub id: Seq<char>,
    pub generation: u64,
    pub passwords: Seq<Seq<char>>,
}

/// The sensitive session: batch numbering, the newest view epoch, the
/// generation in flight and the batch on display.
pub struct SessionView {
    pub next_batch_id: u64,
    pub view_epoch: u64,
    pub pending_generation_epoch: Option<u64>,
    pub batch: Option<BatchView>,
}

/// The stored batch of passwords.
pub struct StoredBatch {
    id: String,
    generation: u64,
    passwords: Vec<String>,
}

/// The view epoch under which a generation started.
#[derive(Clone, Copy, Debug, Eq, PartialEq)]
pub struct GenerationTicket {
    view_epoch: u64,
}

impl vstd::view::View for GenerationTicket {
    type V = u64;

    closed spec fn view(&self) -> u64 {
        self.view_epoch
    }
}

/// The strings' contents.
pub open spec fn texts(strings: Seq<String>) -> Seq<Seq<char>> {
    strings.map_values(|s: String| s@)
}

/// The session after a generation begins under `epoch`: the epoch must
/// be newer; the shown batch is dropped at once.
pub open spec fn begun(v: SessionView, epoch: u64) -> SessionView {
    if epoch <= v.view_epoch {
        v
    } else {
        SessionView { view_epoch: epoch, pending_generation_epoch: Some(epoch), batch: None, ..v }
    }
}

/// The session after the generation under `ticket` is abandoned.
pub open spec fn aborted(v: SessionView, ticket: u64) -> SessionView {
    if v.pending_generation_epoch == Some(ticket) {
        SessionView { pending_generation_epoch: None, ..v }
    } else {
        v
    }
}

/// The session and the answer after committing `passwords` under `ticket`:
/// only the generation still in flight for the newest epoch commits, under
/// the next batch number.
pub open spec fn committed(v: SessionView, ticket: u64, passwords: Seq<Seq<char>>) -> (SessionView, Result<Seq<char>, CommandError>) {
    if v.view_epoch != ticket || v.pending_generation_epoch != Some(ticket) {
        (v, Err(CommandError::StaleViewEpoch))
    } else if v.next_batch_id == u64::MAX {
        (SessionView { pending_generation_epoch: None, ..v }, Err(CommandError::BatchIdExhausted))
    } else {
        let id = decimal(v.next_batch_id as nat);
        (
            SessionView {
                next_batch_id: (v.next_batch_id + 1) as u64,
                pending_generation_epoch: None,
                batch: Some(BatchView { id, generation: ticket, passwords }),
                ..v
            },
            Ok(id),
        )
    }
}

/// The session after the user cleared under `epoch`, which must be newer.
pub open spec fn cleared(v: SessionView, epoch: u64) -> SessionView {
    if epoch <= v.view_epoch {
        v
    } else {
        SessionView { view_epoch: epoch, pending_generation_epoch: None, batch: None, ..v }
    }
}

/// The password in row `row` of batch `id`, with its generation.
pub open spec fn looked_up(v: SessionView, id: Seq<char>, row: int) -> Result<(Seq<char>, u64), CommandError> {
    match v.batch {
        None => Err(CommandError::StaleBatch),
        Some(b) => if b.id != id {
            Err(CommandError::StaleBatch)
        } else if row >= b.passwords.len() {
            Err(CommandError::RowOutOfRange)
        } else {
            Ok((b.passwords[row], b.generation))
        },
    }
}

/// Password batches shown to the user, guarded by view epochs so that a
/// stale request can never touch newer secrets.
pub struct SensitiveState {
    next_batch_id: u64,
    view_epoch: u64,
    pending_generation_epoch: Option<u64>,
    batch: Option<StoredBatch>,
}

impl vstd::view::View for SensitiveState {
    type V = SessionView;

    closed spec fn view(&self) -> SessionView {
        SessionView {
            next_batch_id: self.next_batch_id,
            view_epoch: self.view_epoch,
            pending_generation_epoch: self.pending_generation_epoch,
            batch: match self.batch {
                Some(b) => Some(
                    BatchView { id: b.id@, generation: b.generation, passwords: texts(b.passwords@) },
                ),
                None => None,
            },
        }
    }
}

impl Default for SensitiveState {
    fn default() -> (state: Self)
        ensures
            state@ == (SessionView {
                next_batch_id: 1,
                view_epoch: 0,
                pending_generation_epoch: None,
                batch: None,
            }),
    {
        SensitiveState { next_batch_id: 1, view_epoch: 0, pending_generation_epoch: None, batch: None }
    }
}

impl SensitiveState {
    fn discard_batch(&mut self)
        ensures
            final(self)@ == (SessionView { batch: None, ..old(self)@ }),
    {
        match self.batch.take() {
            Some(batch) => {
                let mut passwords = batch.passwords;
                zeroize_strings(&mut passwords);
            },
            None => {},
        }
    }

    /// Starts a generation for the newer view epoch `view_epoch`, dropping
    /// the shown batch before any work starts.
    pub fn begin_generation(&mut self, view_epoch: u64) -> (result: Result<GenerationTicket, CommandError>)
        ensures
            final(self)@ == begun(old(self)@, view_epoch),
            view_epoch <= old(self)@.view_epoch ==> result == Err::<GenerationTicket, CommandError>(
                CommandError::StaleViewEpoch,
            ),
            view_epoch > old(self)@.view_epoch ==> (result matches Ok(t) && t@ == view_epoch),
    {
        if view_epoch <= self.view_epoch {
            return Err(CommandError::StaleViewEpoch);
        }
        self.view_epoch = view_epoch;
        self.pending_generation_epoch = Some(view_epoch);
        self.discard_batch();
        Ok(GenerationTicket { view_epoch })
    }

    /// Abandons the generation under `ticket` if it is still in flight.
    pub fn abort_generation(&mut self, ticket: GenerationTicket) -> (result: Result<(), CommandError>)
        ensures
            final(self)@ == aborted(old(self)@, ticket@),
            result is Ok,
    {
        let in_flight = match self.pending_generation_epoch {
            Some(epoch) => epoch == ticket.view_epoch,
            None => false,
        };
        if in_flight {
            self.pending_generation_epoch = None;
        }
        Ok(())
    }

    /// Stores `passwords` as the shown batch if the generation under `ticket`
    /// is still the newest, and answers the batch's opaque id.
    pub fn commit_generation(&mut self, ticket: GenerationTicket, passwords: &[String]) -> (result: Result<String, CommandError>)
        ensures
            (final(self)@, match result {
                Ok(id) => Ok(id@),
                Err(e) => Err(e),
            }) == committed(old(self)@, ticket@, texts(passwords@)),
    {
        let current = match self.pending_generation_epoch {
            Some(epoch) => epoch == ticket.view_epoch,
            None => false,
        };
        if self.view_epoch != ticket.view_epoch || !current {
            return Err(CommandError::StaleViewEpoch);
        }
        let id = self.next_batch_id;
        if id == u64::MAX {
            self.pending_generation_epoch = None;
            return Err(CommandError::BatchIdExhausted);
        }
        let mut stored: Vec<String> = Vec::new();
        let mut i: usize = 0;
        while i < passwords.len()
            invariant
                i <= passwords@.len(),
                stored@ == passwords@.take(i as int),
            decreases passwords@.len() - i,
        {
            stored.push(passwords[i].clone());
            i = i + 1;
            assert(stored@ =~= passwords@.take(i as int));
        }
        assert(passwords@.take(passwords@.len() as int) =~= passwords@);
        self.next_batch_id = id + 1;
        self.pending_generation_epoch = None;
        self.discard_batch();
        let text = decimal_text(id);
        self.batch = Some(StoredBatch { id: decimal_text(id), generation: ticket.view_epoch, passwords: stored });
        Ok(text)
    }

    /// Ends the generation under `ticket` with what the generator gave: a
    /// failed generation is abandoned and its error reported; a batch is
    /// committed and handed back with its id, and when the commit is refused
    /// the passwords are wiped.
    pub fn finish_generation(
        &mut self,
        ticket: GenerationTicket,
        generated: Result<Vec<String>, GenerateError>,
    ) -> (result: Result<(String, Vec<String>), CommandError>)
        ensures
            match generated {
                Err(error) => final(self)@ == aborted(old(self)@, ticket@) && result == Err::<
                    (String, Vec<String>),
                    CommandError,
                >(command_error_for_generate(error)),
                Ok(passwords) => {
                    let (after, answer) = committed(old(self)@, ticket@, texts(passwords@));
                    &&& final(self)@ == after
                    &&& match answer {
                        Ok(id) => result matches Ok((text, out)) && text@ == id && out@
                            == passwords@,
                        Err(e) => result == Err::<(String, Vec<String>), CommandError>(e),
                    }
                },
            },
    {
        match generated {
            Err(error) => {
                let _ = self.abort_generation(ticket);
                Err(CommandError::from(error))
            },
            Ok(mut passwords) => match self.commit_generation(ticket, passwords.as_slice()) {
                Ok(id) => Ok((id, passwords)),
                Err(error) => {
                    zeroize_strings(&mut passwords);
                    Err(error)
                },
            },
        }
    }

    /// Checks that `batch_id` names the shown batch and that it has row
    /// `row_index`.
    pub fn validate_row(&self, batch_id: &str, row_index: usize) -> (result: Result<(), CommandError>)
        ensures
            match looked_up(self@, batch_id@, row_index as int) {
                Ok(_) => result is Ok,
                Err(e) => result == Err::<(), CommandError>(e),
            },
    {
        let batch = match &self.batch {
            Some(batch) => batch,
            None => return Err(CommandError::StaleBatch),
        };
        let requested = batch_id.to_owned();
        if !(batch.id == requested) {
            return Err(CommandError::StaleBatch);
        }
        if row_index >= batch.passwords.len() {
            return Err(CommandError::RowOutOfRange);
        }
        Ok(())
    }

    /// A copy of the password in row `row_index` of batch `batch_id`, with
    /// the generation that fences its clipboard lease.
    pub fn password_for_copy(&self, batch_id: &str, row_index: usize) -> (result: Result<(String, u64), CommandError>)
        ensures
            match looked_up(self@, batch_id@, row_index as int) {
                Ok((password, generation)) => result matches Ok((p, g)) && p@ == password && g
                    == generation,
                Err(e) => result == Err::<(String, u64), CommandError>(e),
            },
    {
        let batch = match &self.batch {
            Some(batch) => batch,
            None => return Err(CommandError::StaleBatch),
        };
        let requested = batch_id.to_owned();
        if !(batch.id == requested) {
            return Err(CommandError::StaleBatch);
        }
        if row_index >= batch.passwords.len() {
            return Err(CommandError::RowOutOfRange);
        }
        Ok((batch.passwords[row_index].clone(), batch.generation))
    }

    /// Clears the shown batch for the newer view epoch `view_epoch`, which
    /// also supersedes any generation in flight.
    pub fn clear_batch(&mut self, view_epoch: u64) -> (result: Result<(), CommandError>)
        ensures
            final(self)@ == cleared(old(self)@, view_epoch),
            view_epoch <= old(self)@.view_epoch <==> result == Err::<(), CommandError>(
                CommandError::StaleViewEpoch,
            ),
            result is Ok || result == Err::<(), CommandError>(CommandError::StaleViewEpoch),
    {
        if view_epoch <= self.view_epoch {
            return Err(CommandError::StaleViewEpoch);
        }
        self.view_epoch = view_epoch;
        self.pending_generation_epoch = None;
        self.discard_batch();
        Ok(())
    }

    /// Clears everything for closing under a fresh view epoch and answers it.
    pub fn force_clear_for_close(&mut self) -> (epoch: u64)
        ensures
            epoch == if old(self)@.view_epoch == u64::MAX {
                u64::MAX
            } else {
                (old(self)@.view_epoch + 1) as u64
            },
            final(self)@ == (SessionView {
                view_epoch: epoch,
                pending_generation_epoch: None,
                batch: None,
                ..old(self)@
            }),
    {
        let epoch = self.view_epoch.saturating_add(1);
        self.view_epoch = epoch;
        self.pending_generation_epoch = None;
        self.discard_batch();
        epoch
    }
}

/// Every shown batch carries a number issued before the next one, and the
/// next number is at least 1.
pub open spec fn session_wf(v: SessionView) -> bool {
    &&& v.next_batch_id >= 1
    &&& v.batch matches Some(b) ==> exists|k: nat| k < v.next_batch_id && b.id == #[trigger] decimal(k)
}

/// The session a default state starts from is well formed, and every
/// transition keeps it so.
pub proof fn lemma_session_wf_preserved(
    v: SessionView,
    epoch: u64,
    ticket: u64,
    passwords: Seq<Seq<char>>,
)
    requires
        session_wf(v),
    ensures
        session_wf(
            SessionView { next_batch_id: 1, view_epoch: 0, pending_generation_epoch: None, batch: None },
        ),
        session_wf(begun(v, epoch)),
        session_wf(aborted(v, ticket)),
        session_wf(committed(v, ticket, passwords).0),
        session_wf(cleared(v, epoch)),
{
    let c = committed(v, ticket, passwords).0;
    if c.batch is Some && c != v {
        if v.view_epoch == ticket && v.pending_generation_epoch == Some(ticket) && v.next_batch_id
            != u64::MAX {
            assert(c.batch->Some_0.id == decimal(v.next_batch_id as nat));
        }
    }
    match v.batch {
        Some(b) => {
            let k = choose|k: nat| k < v.next_batch_id && b.id == #[trigger] decimal(k);
            assert(aborted(v, ticket).batch == v.batch);
            assert(k < aborted(v, ticket).next_batch_id && b.id == decimal(k));
        },
        None => {},
    }
}

/// View epochs and batch numbers never go back.
pub proof fn lemma_session_counters_never_decrease(
    v: SessionView,
    epoch: u64,
    ticket: u64,
    passwords: Seq<Seq<char>>,
)
    ensures
        begun(v, epoch).view_epoch >= v.view_epoch,
        aborted(v, ticket).view_epoch == v.view_epoch,
        committed(v, ticket, passwords).0.view_epoch == v.view_epoch,
        cleared(v, epoch).view_epoch >= v.view_epoch,
        begun(v, epoch).next_batch_id == v.next_batch_id,
        aborted(v, ticket).next_batch_id == v.next_batch_id,
        committed(v, ticket, passwords).0.next_batch_id >= v.next_batch_id,
        cleared(v, epoch).next_batch_id == v.next_batch_id,
{
}

/// A request under a view epoch no newer than the session's changes nothing,
/// and a commit under any ticket but the newest is refused without effect.
pub proof fn lemma_stale_requests_change_nothing(
    v: SessionView,
    epoch: u64,
    ticket: u64,
    passwords: Seq<Seq<char>>,
)
    ensures
        epoch <= v.view_epoch ==> begun(v, epoch) == v && cleared(v, epoch) == v,
        ticket != v.view_epoch ==> committed(v, ticket, passwords) == (
            v,
            Err::<Seq<char>, CommandError>(CommandError::StaleViewEpoch),
        ),
{
}

/// Starting a generation or clearing under a newer epoch hides every batch
/// at once.
pub proof fn lemma_newer_epoch_hides_batch(v: SessionView, epoch: u64, id: Seq<char>, row: int)
    requires
        epoch > v.view_epoch,
    ensures
        looked_up(begun(v, epoch), id, row) == Err::<(Seq<char>, u64), CommandError>(
            CommandError::StaleBatch,
        ),
        looked_up(cleared(v, epoch), id, row) == Err::<(Seq<char>, u64), CommandError>(
            CommandError::StaleBatch,
        ),
{
}

/// A committed batch answers its own id with the passwords that were
/// committed, each with the ticket's epoch.
pub proof fn lemma_committed_batch_reads_back(
    v: SessionView,
    ticket: u64,
    passwords: Seq<Seq<char>>,
    row: int,
)
    requires
        committed(v, ticket, passwords).1 is Ok,
    ensures
        0 <= row < passwords.len() ==> looked_up(
            committed(v, ticket, passwords).0,
            committed(v, ticket, passwords).1->Ok_0,
            row,
        ) == Ok::<(Seq<char>, u64), CommandError>((passwords[row], ticket)),
        row >= passwords.len() ==> looked_up(
            committed(v, ticket, passwords).0,
            committed(v, ticket, passwords).1->Ok_0,
            row,
        ) == Err::<(Seq<char>, u64), CommandError>(CommandError::RowOutOfRange),
{
}

/// Ids are never reused: once a commit replaces a batch, the replaced id is
/// refused as stale.
pub proof fn lemma_replaced_batch_is_stale(
    v: SessionView,
    ticket: u64,
    passwords: Seq<Seq<char>>,
    row: int,
)
    requires
        session_wf(v),
        v.batch is Some,
        committed(v, ticket, passwords).1 is Ok,
    ensures
        looked_up(committed(v, ticket, passwords).0, v.batch->Some_0.id, row) == Err::<
            (Seq<char>, u64),
            CommandError,
        >(CommandError::StaleBatch),
{
    let b = v.batch->Some_0;
    let k = choose|k: nat| k < v.next_batch_id && b.id == #[trigger] decimal(k);
    let fresh = v.next_batch_id as nat;
    if decimal(fresh) == decimal(k) {
        lemma_decimal_injective(fresh, k);
    }
}

} // verus!
