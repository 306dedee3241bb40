use vstd::prelude::*;
use vstd::view::View as _;

use crate::clipboard::ClipboardStatus;
use crate::session::{decimal, decimal_text, CommandError, SensitiveState, SessionView};
use crate::window_service::{
    about_set, closing, contrast_set, destroyed, focus_set, pointer_set, ClosePhase, CloseReducer,
    CloseStart, CloseView, Coordinator, CoordinatorView, Effects, ExitAction, RedactionAction,
    Surface, TimerAction, View, ViewAction, EXIT_CLEANUP_DELAY_MS, REDACTION_DELAY_MS,
};

verus! {

/// Tells the main window to mask every password.
pub const MASK_ALL_SCRIPT: &'static str = "window.dispatchEvent(new CustomEvent('localpass:mask-all'));";
/// Tells the main window to refresh its clipboard status.
pub const CLIPBOARD_STATUS_CHANGED_SCRIPT: &'static str = "window.dispatchEvent(new CustomEvent('localpass:clipboard-status-changed'));";
/// Tells the main window that it was rolled up.
pub const VIEW_ROLLED_SCRIPT: &'static str = "window.dispatchEvent(new CustomEvent('localpass:window-view',{detail:'rolled'}));";
/// Sets the active surface opacity.
pub const OPACITY_ACTIVE_SCRIPT: &'static str = "window.dispatchEvent(new CustomEvent('localpass:window-opacity',{detail:'active'}));";
/// Sets the hovered surface opacity.
pub const OPACITY_HOVERED_SCRIPT: &'static str = "window.dispatchEvent(new CustomEvent('localpass:window-opacity',{detail:'hovered'}));";
/// Sets the idle surface opacity.
pub const OPACITY_IDLE_SCRIPT: &'static str = "window.dispatchEvent(new CustomEvent('localpass:window-opacity',{detail:'idle'}));";
/// Applies the dark theme.
pub const THEME_DARK_SCRIPT: &'static str = "document.documentElement.dataset.theme='dark';";
/// Applies the light theme.
pub const THEME_LIGHT_SCRIPT: &'static str = "document.documentElement.dataset.theme='light';";
/// Opens a native close: blanks every password, then asks for an
/// acknowledgement carrying the ticket that follows.
pub const NATIVE_CLOSE_PREFIX: &'static str = "(()=>{document.querySelectorAll('.password-text').forEach(element=>{element.textContent='';});window.dispatchEvent(new CustomEvent('localpass:native-close',{detail:";
/// Ends the native close script.
pub const NATIVE_CLOSE_SUFFIX: &'static str = "}));})();";
/// Opens the collapsed-opacity event; the percent follows.
pub const COLLAPSED_OPACITY_PREFIX: &'static str = "window.dispatchEvent(new CustomEvent('localpass:collapsed-opacity',{detail:";
/// Ends the collapsed-opacity event.
pub const COLLAPSED_OPACITY_SUFFIX: &'static str = "}));";

/// The session's color theme.
#[derive(Clone, Copy, Debug, Eq, PartialEq)]
pub enum SessionTheme {
    Dark,
    Light,
}

impl SessionTheme {
    /// The theme's name.
    pub fn as_str(self) -> (name: &'static str)
        ensures
            name@ == match self {
                SessionTheme::Dark => "dark"@,
                SessionTheme::Light => "light"@,
            },
    {
        match self {
            SessionTheme::Dark => "dark",
            SessionTheme::Light => "light",
        }
    }

    /// The script that applies the theme.
    pub fn script(self) -> (script: &'static str)
        ensures
            script@ == match self {
                SessionTheme::Dark => THEME_DARK_SCRIPT@,
                SessionTheme::Light => THEME_LIGHT_SCRIPT@,
            },
    {
        match self {
            SessionTheme::Dark => THEME_DARK_SCRIPT,
            SessionTheme::Light => THEME_LIGHT_SCRIPT,
        }
    }
}

/// The script that redacts the main window and asks it to acknowledge
/// `ticket`.
pub fn native_close_script(ticket: u64) -> (script: String)
    ensures
        script@ == NATIVE_CLOSE_PREFIX@ + decimal(ticket as nat) + NATIVE_CLOSE_SUFFIX@,
{
    let mut script = String::from_str(NATIVE_CLOSE_PREFIX);
    let digits = decimal_text(ticket);
    script.append(digits.as_str());
    script.append(NATIVE_CLOSE_SUFFIX);
    script
}

/// A collapsed opacity the user may choose: 25 to 75 percent in steps of 5.
pub open spec fn valid_collapsed_opacity(percent: i32) -> bool {
    25 <= percent <= 75 && percent % 5 == 0
}

/// The script that announces an accepted collapsed opacity.
pub fn collapsed_opacity_script(percent: i32) -> (script: String)
    requires
        valid_collapsed_opacity(percent),
    ensures
        script@ == COLLAPSED_OPACITY_PREFIX@ + decimal(percent as nat) + COLLAPSED_OPACITY_SUFFIX@,
{
    let mut script = String::from_str(COLLAPSED_OPACITY_PREFIX);
    let digits = decimal_text(percent as u64);
    script.append(digits.as_str());
    script.append(COLLAPSED_OPACITY_SUFFIX);
    script
}

/// The opacity script for an opacity in percent.
pub fn opacity_script(percent: u32) -> (script: &'static str)
    ensures
        script@ == if percent >= 100 {
            OPACITY_ACTIVE_SCRIPT@
        } else if percent >= 95 {
            OPACITY_HOVERED_SCRIPT@
        } else {
            OPACITY_IDLE_SCRIPT@
        },
{
    if percent >= 100 {
        OPACITY_ACTIVE_SCRIPT
    } else if percent >= 95 {
        OPACITY_HOVERED_SCRIPT
    } else {
        OPACITY_IDLE_SCRIPT
    }
}

/// Whether two strings hold the same characters.
pub fn same_text(a: &str, b: &str) -> (r: bool)
    ensures
        r == (a@ == b@),
{
    let len = a.unicode_len();
    if len != b.unicode_len() {
        return false;
    }
    let mut i: usize = 0;
    while i < len
        invariant
            i <= len,
            len == a@.len(),
            len == b@.len(),
            forall|k: int| 0 <= k < i ==> a@[k] == b@[k],
        decreases len - i,
    {
        if a.get_char(i) != b.get_char(i) {
            return false;
        }
        i = i + 1;
    }
    assert(a@ =~= b@);
    true
}

/// Accepts a command only from a window whose label is in `allowed`.
pub fn require_label(label: &str, allowed: &[&str]) -> (result: Result<(), CommandError>)
    ensures
        result is Ok <==> exists|i: int| 0 <= i < allowed@.len() && (#[trigger] allowed@[i])@ == label@,
        result matches Err(e) ==> e == CommandError::UnauthorizedWindow,
{
    let mut i: usize = 0;
    while i < allowed.len()
        invariant
            i <= allowed@.len(),
            forall|k: int| 0 <= k < i ==> (#[trigger] allowed@[k])@ != label@,
        decreases allowed@.len() - i,
    {
        if same_text(allowed[i], label) {
            return Ok(());
        }
        i = i + 1;
    }
    Err(CommandError::UnauthorizedWindow)
}

/// The surface of the window labelled `label`: `main` or `about`.
pub fn surface_for_label(label: &str) -> (result: Result<Surface, CommandError>)
    ensures
        label@ == "main"@ ==> result == Ok::<Surface, CommandError>(Surface::Main),
        label@ == "about"@ ==> result == Ok::<Surface, CommandError>(Surface::About),
        label@ != "main"@ && label@ != "about"@ ==> result == Err::<Surface, CommandError>(
            CommandError::UnauthorizedWindow,
        ),
{
    proof {
        reveal_strlit("main");
        reveal_strlit("about");
        assert("main"@.len() == 4);
        assert("about"@.len() == 5);
    }
    if same_text(label, "main") {
        Ok(Surface::Main)
    } else if same_text(label, "about") {
        Ok(Surface::About)
    } else {
        Err(CommandError::UnauthorizedWindow)
    }
}

/// Dragging is allowed for the main and About windows only.
pub fn drag_allowed(label: &str) -> (r: bool)
    ensures
        r == (label@ == "main"@ || label@ == "about"@),
{
    same_text(label, "main") || same_text(label, "about")
}

/// The close cleanup still waits on the clipboard while its status shows a
/// release pending or a countdown running.
pub fn cleanup_waits_on(status: &ClipboardStatus) -> (waits: bool)
    ensures
        waits == (status.state@ == "release_pending"@ || status.state@ == "countdown"@),
{
    same_text(status.state, "release_pending") || same_text(status.state, "countdown")
}

/// The parts of a URL that navigation is judged by.
pub struct UrlParts<'a> {
    pub scheme: &'a str,
    pub host: Option<&'a str>,
    pub port: Option<u16>,
    pub has_username: bool,
    pub has_password: bool,
}

/// Navigation stays on the bundled app: no credentials, and exactly the
/// embedded origin (`https://tauri.localhost` on Windows,
/// `tauri://localhost` elsewhere) with no port, or, in a development build,
/// exactly `http://127.0.0.1:1420`.
pub open spec fn navigation_ok(
    scheme: Seq<char>,
    host: Option<Seq<char>>,
    port: Option<u16>,
    credentials: bool,
    windows: bool,
    development: bool,
) -> bool {
    let embedded = if windows {
        scheme == "https"@ && host == Some("tauri.localhost"@) && port is None
    } else {
        scheme == "tauri"@ && host == Some("localhost"@) && port is None
    };
    let dev_server = development && scheme == "http"@ && host == Some("127.0.0.1"@) && port
        == Some(1420u16);
    !credentials && (embedded || dev_server)
}

fn host_is(host: Option<&str>, expected: &str) -> (r: bool)
    ensures
        r == (host matches Some(h) && h@ == expected@),
{
    match host {
        Some(h) => same_text(h, expected),
        None => false,
    }
}

/// Whether the webview may navigate to a URL with these parts, on Windows
/// or elsewhere, in a development build or not.
pub fn navigation_allowed(url: &UrlParts, windows: bool, development: bool) -> (allowed: bool)
    ensures
        allowed == navigation_ok(
            url.scheme@,
            match url.host {
                Some(h) => Some(h@),
                None => None,
            },
            url.port,
            url.has_username || url.has_password,
            windows,
            development,
        ),
{
    let no_credentials = !url.has_username && !url.has_password;
    let embedded = if windows {
        same_text(url.scheme, "https") && host_is(url.host, "tauri.localhost") && url.port.is_none()
    } else {
        same_text(url.scheme, "tauri") && host_is(url.host, "localhost") && url.port.is_none()
    };
    let dev_server = development && same_text(url.scheme, "http") && host_is(url.host, "127.0.0.1")
        && url.port == Some(1420u16);
    no_credentials && (embedded || dev_server)
}

/// What the shell does after a focus change.
#[derive(Clone, Copy, Debug, Eq, PartialEq)]
pub enum FocusStep {
    /// Close the About pane, which lost focus.
    CloseAbout,
    /// Mask every password first when asked, then apply the effects.
    Apply { mask_passwords: bool, effects: Effects },
}

/// What the close-cleanup monitor does next.
#[derive(Clone, Copy, Debug, Eq, PartialEq)]
pub enum CleanupStep {
    Wait,
    Exit { code: i32 },
    Stop,
}

/// Window-side session state: coordinator, close sequence, zoom, collapsed
/// opacity and the close cleanup's bookkeeping. Times are monotonic
/// milliseconds.
pub struct WindowState {
    pub coordinator: Coordinator,
    pub close: CloseReducer,
    pub zoom_percent: i32,
    pub collapsed_opacity_percent: i32,
    pub about_creating: bool,
    pub cleanup_epoch: Option<u64>,
    pub cleanup_deadline: Option<u64>,
    pub exit_code: i32,
    pub cleanup_worker_started: bool,
}

impl Default for WindowState {
    fn default() -> (state: Self)
        ensures
            state.coordinator@ == (CoordinatorView {
                main_focused: false,
                about_focused: false,
                main_pointer_inside: false,
                about_pointer_inside: false,
                about_open: false,
                high_contrast: false,
                rolled: false,
                next_generation: 0,
                pending_roll: None,
            }),
            state.close@ == (CloseView { phase: ClosePhase::Running, next_ticket: 0 }),
            state.zoom_percent == 100,
            state.collapsed_opacity_percent == 50,
            !state.about_creating,
            state.cleanup_epoch is None,
            state.cleanup_deadline is None,
            state.exit_code == 0,
            !state.cleanup_worker_started,
    {
        WindowState {
            coordinator: Coordinator::default(),
            close: CloseReducer::default(),
            zoom_percent: 100,
            collapsed_opacity_percent: 50,
            about_creating: false,
            cleanup_epoch: None,
            cleanup_deadline: None,
            exit_code: 0,
            cleanup_worker_started: false,
        }
    }
}

impl WindowState {
    /// Every field but the collapsed opacity equals `other`'s.
    pub open spec fn same_but_opacity(&self, other: &Self) -> bool {
        &&& self.coordinator@ == other.coordinator@
        &&& self.close@ == other.close@
        &&& self.zoom_percent == other.zoom_percent
        &&& self.about_creating == other.about_creating
        &&& self.cleanup_epoch == other.cleanup_epoch
        &&& self.cleanup_deadline == other.cleanup_deadline
        &&& self.exit_code == other.exit_code
        &&& self.cleanup_worker_started == other.cleanup_worker_started
    }

    /// Sets the collapsed opacity for this session after `notify` has told
    /// the main window. Refused while closing or off the 25–75 %, step 5
    /// scale; a failed notification keeps the old value.
    pub fn set_collapsed_opacity<F: FnOnce(i32) -> Result<(), CommandError>>(
        &mut self,
        percent: i32,
        notify: F,
    ) -> (result: Result<i32, CommandError>)
        requires
            !closing(old(self).close@.phase) && valid_collapsed_opacity(percent) ==> call_requires(
                notify,
                (percent,),
            ),
        ensures
            final(self).same_but_opacity(old(self)),
            closing(old(self).close@.phase) ==> result == Err::<i32, CommandError>(
                CommandError::CloseInProgress,
            ) && final(self).collapsed_opacity_percent == old(self).collapsed_opacity_percent,
            !closing(old(self).close@.phase) && !valid_collapsed_opacity(percent) ==> result
                == Err::<i32, CommandError>(CommandError::InvalidCollapsedOpacity)
                && final(self).collapsed_opacity_percent == old(self).collapsed_opacity_percent,
            !closing(old(self).close@.phase) && valid_collapsed_opacity(percent) ==> match result {
                Ok(accepted) => accepted == percent && final(self).collapsed_opacity_percent
                    == percent && call_ensures(notify, (percent,), Ok(())),
                Err(e) => final(self).collapsed_opacity_percent
                    == old(self).collapsed_opacity_percent && call_ensures(
                    notify,
                    (percent,),
                    Err(e),
                ),
            },
    {
        if self.close.is_closing() {
            return Err(CommandError::CloseInProgress);
        }
        if !(25 <= percent && percent <= 75) || percent % 5 != 0 {
            return Err(CommandError::InvalidCollapsedOpacity);
        }
        let outcome = notify(percent);
        match outcome {
            Ok(unit) => {
                assert(unit == ());
            },
            Err(error) => return Err(error),
        }
        assert(outcome == Ok::<(), CommandError>(()));
        self.collapsed_opacity_percent = percent;
        Ok(percent)
    }

    /// Applies the requested view and contrast: while closing nothing
    /// changes; in high contrast the window never rolls up. Answers the view
    /// to apply and the coordinator's effects.
    pub fn prepare_view(&mut self, view: View, high_contrast: bool) -> (result: Result<
        (View, Effects),
        CommandError,
    >)
        ensures
            closing(old(self).close@.phase) ==> result == Err::<(View, Effects), CommandError>(
                CommandError::CloseInProgress,
            ) && final(self).coordinator@ == old(self).coordinator@,
            !closing(old(self).close@.phase) ==> (result matches Ok((applied, effects)) && {
                &&& (final(self).coordinator@, effects) == contrast_set(
                    old(self).coordinator@,
                    high_contrast,
                )
                &&& effects.view == ViewAction::Unchanged
                &&& final(self).coordinator@.high_contrast == high_contrast
                &&& applied == if view == View::Rolled && high_contrast {
                    View::Expanded
                } else {
                    view
                }
            }),
            final(self).close@ == old(self).close@,
            final(self).collapsed_opacity_percent == old(self).collapsed_opacity_percent,
    {
        if self.close.is_closing() {
            return Err(CommandError::CloseInProgress);
        }
        let effects = self.coordinator.set_high_contrast(high_contrast);
        let applied = match view {
            View::Expanded => View::Expanded,
            View::Rolled => if self.coordinator.is_high_contrast() {
                View::Expanded
            } else {
                View::Rolled
            },
        };
        Ok((applied, effects))
    }

    /// Records the view and zoom that the shell applied.
    pub fn record_view(&mut self, view: View, zoom_percent: i32)
        ensures
            final(self).zoom_percent == zoom_percent,
            final(self).coordinator@ == (CoordinatorView {
                rolled: view == View::Rolled,
                ..old(self).coordinator@
            }),
            final(self).close@ == old(self).close@,
    {
        self.zoom_percent = zoom_percent;
        self.coordinator.note_view(view);
    }

    /// A pointer event on `surface`; refused while closing.
    pub fn pointer_event(&mut self, surface: Surface, inside: bool) -> (result: Result<
        Effects,
        CommandError,
    >)
        ensures
            closing(old(self).close@.phase) ==> result == Err::<Effects, CommandError>(
                CommandError::CloseInProgress,
            ) && final(self).coordinator@ == old(self).coordinator@,
            !closing(old(self).close@.phase) ==> (result matches Ok(effects) && (
            final(self).coordinator@,
            effects,
        ) == pointer_set(old(self).coordinator@, surface, inside)),
            final(self).coordinator@.rolled == old(self).coordinator@.rolled,
            final(self).coordinator@.pending_roll == old(self).coordinator@.pending_roll,
            result matches Ok(effects) ==> effects.view == ViewAction::Unchanged && effects.timer
                == TimerAction::Unchanged,
            final(self).close@ == old(self).close@,
    {
        if self.close.is_closing() {
            return Err(CommandError::CloseInProgress);
        }
        Ok(self.coordinator.set_pointer_inside(surface, inside))
    }

    /// A window gained or lost focus. The About pane closes when it loses
    /// focus; otherwise the coordinator records the focus, and the main
    /// window losing focus masks every password first.
    pub fn focus_event(&mut self, surface: Surface, focused: bool) -> (step: FocusStep)
        ensures
            surface == Surface::About && !focused ==> step == FocusStep::CloseAbout
                && final(self).coordinator@ == old(self).coordinator@,
            !(surface == Surface::About && !focused) ==> (step matches FocusStep::Apply {
                mask_passwords,
                effects,
            } && mask_passwords == (surface == Surface::Main && !focused) && (
            final(self).coordinator@,
            effects,
        ) == focus_set(old(self).coordinator@, surface, focused)),
            final(self).close@ == old(self).close@,
            final(self).about_creating == old(self).about_creating,
    {
        if matches!(surface, Surface::About) && !focused {
            return FocusStep::CloseAbout;
        }
        let mask_passwords = matches!(surface, Surface::Main) && !focused;
        let effects = self.coordinator.set_focus(surface, focused);
        FocusStep::Apply { mask_passwords, effects }
    }

    /// Opens the About pane. When the window must be created, only one
    /// creation may run at a time; answers the effects and the collapsed
    /// opacity for the new pane.
    pub fn begin_about(&mut self, window_exists: bool) -> (result: Result<(Effects, i32), CommandError>)
        ensures
            closing(old(self).close@.phase) ==> result == Err::<(Effects, i32), CommandError>(
                CommandError::CloseInProgress,
            ) && final(self).about_creating == old(self).about_creating && final(self).coordinator@
                == old(self).coordinator@,
            !closing(old(self).close@.phase) && !window_exists && old(self).about_creating
                ==> result == Err::<(Effects, i32), CommandError>(CommandError::WindowUnavailable),
            !closing(old(self).close@.phase) && (window_exists || !old(self).about_creating) ==> (
            result matches Ok((effects, percent)) && percent == old(self).collapsed_opacity_percent
                && (final(self).coordinator@, effects) == about_set(old(self).coordinator@, true)
                && final(self).about_creating == (!window_exists || old(self).about_creating)),
            !(!closing(old(self).close@.phase) && (window_exists || !old(self).about_creating))
                ==> final(self).coordinator@ == old(self).coordinator@,
            final(self).close@ == old(self).close@,
    {
        if self.close.is_closing() {
            return Err(CommandError::CloseInProgress);
        }
        if !window_exists {
            if self.about_creating {
                return Err(CommandError::WindowUnavailable);
            }
            self.about_creating = true;
        }
        let effects = self.coordinator.set_about_open(true);
        Ok((effects, self.collapsed_opacity_percent))
    }

    /// The About window was created.
    pub fn about_created(&mut self)
        ensures
            !final(self).about_creating,
            final(self).coordinator@ == old(self).coordinator@,
            final(self).close@ == old(self).close@,
    {
        self.about_creating = false;
    }

    /// The About pane closed, failed to open, or was destroyed.
    pub fn about_closed(&mut self) -> (effects: Effects)
        ensures
            !final(self).about_creating,
            (final(self).coordinator@, effects) == about_set(old(self).coordinator@, false),
            !final(self).coordinator@.about_open,
            final(self).close@ == old(self).close@,
    {
        self.about_creating = false;
        self.coordinator.set_about_open(false)
    }

    /// The frontend asked to close after redacting under
    /// `redacted_view_epoch`: the sensitive state is cleared for that epoch
    /// and the windows may be destroyed at once.
    pub fn begin_frontend_close(
        &mut self,
        sensitive: &mut SensitiveState,
        redacted_view_epoch: u64,
    ) -> (result: Result<(), CommandError>)
        ensures
            closing(old(self).close@.phase) ==> result == Err::<(), CommandError>(
                CommandError::CloseInProgress,
            ) && final(sensitive)@ == old(sensitive)@ && final(self).close@ == old(self).close@,
            !closing(old(self).close@.phase) && redacted_view_epoch <= old(sensitive)@.view_epoch
                ==> result == Err::<(), CommandError>(CommandError::StaleViewEpoch)
                && final(sensitive)@ == old(sensitive)@ && final(self).close@ == old(self).close@,
            !closing(old(self).close@.phase) && redacted_view_epoch > old(sensitive)@.view_epoch
                ==> {
                &&& result is Ok
                &&& final(sensitive)@ == (SessionView {
                    view_epoch: redacted_view_epoch,
                    pending_generation_epoch: None,
                    batch: None,
                    ..old(sensitive)@
                })
                &&& final(self).close@.phase == ClosePhase::ReadyToDestroy
                &&& final(self).cleanup_epoch == Some(redacted_view_epoch)
            },
    {
        if self.close.is_closing() {
            return Err(CommandError::CloseInProgress);
        }
        match sensitive.clear_batch(redacted_view_epoch) {
            Ok(()) => {},
            Err(error) => return Err(error),
        }
        match self.close.begin_frontend() {
            CloseStart::DestroyNow => {},
            _ => return Err(CommandError::CloseInProgress),
        }
        self.cleanup_epoch = Some(redacted_view_epoch);
        Ok(())
    }

    /// The platform asked to close: everything sensitive is cleared under a
    /// fresh epoch, and the frontend gets a ticket to acknowledge within the
    /// redaction delay. Answers the ticket, the delay and the cleanup epoch,
    /// or nothing when a close is already under way.
    pub fn begin_native_close(&mut self, sensitive: &mut SensitiveState) -> (started: Option<
        (u64, u64, u64),
    >)
        ensures
            closing(old(self).close@.phase) ==> started is None && final(sensitive)@ == old(
                sensitive,
            )@ && final(self).close@ == old(self).close@,
            !closing(old(self).close@.phase) ==> (started matches Some((ticket, after, epoch)) && {
                &&& final(self).close@.phase == ClosePhase::AwaitingRedaction(ticket)
                &&& after == REDACTION_DELAY_MS
                &&& final(self).cleanup_epoch == Some(epoch)
                &&& final(sensitive)@.batch is None
                &&& final(sensitive)@.pending_generation_epoch is None
                &&& final(sensitive)@.view_epoch == epoch
                &&& epoch == if old(sensitive)@.view_epoch == u64::MAX {
                    u64::MAX
                } else {
                    (old(sensitive)@.view_epoch + 1) as u64
                }
                &&& final(sensitive)@.next_batch_id == old(sensitive)@.next_batch_id
            }),
    {
        let (ticket, after) = match self.close.begin_native() {
            CloseStart::AwaitRedaction { ticket, after } => (ticket, after),
            _ => return None,
        };
        let epoch = sensitive.force_clear_for_close();
        self.cleanup_epoch = Some(epoch);
        Some((ticket, after, epoch))
    }

    /// The frontend acknowledged redaction under `ticket`: Ok means the
    /// windows are to be destroyed now.
    pub fn acknowledge_close(&mut self, ticket: u64) -> (result: Result<(), CommandError>)
        ensures
            old(self).close@.phase == ClosePhase::AwaitingRedaction(ticket) ==> result is Ok
                && final(self).close@.phase == ClosePhase::ReadyToDestroy,
            old(self).close@.phase != ClosePhase::AwaitingRedaction(ticket) ==> result
                == Err::<(), CommandError>(CommandError::StaleCloseTicket) && final(self).close@
                == old(self).close@,
    {
        match self.close.acknowledge(ticket) {
            RedactionAction::DestroyNow => Ok(()),
            _ => Err(CommandError::StaleCloseTicket),
        }
    }

    /// Claims the single close-cleanup worker; true only the first time.
    pub fn claim_cleanup_worker(&mut self) -> (first: bool)
        ensures
            first == !old(self).cleanup_worker_started,
            final(self).cleanup_worker_started,
            final(self).close@ == old(self).close@,
    {
        if self.cleanup_worker_started {
            false
        } else {
            self.cleanup_worker_started = true;
            true
        }
    }

    /// Answers a request to exit at monotonic `now`. While running it starts
    /// a bounded close: the cleanup deadline becomes the earlier of the one
    /// set and `now` plus the cleanup delay, and a given exit code is kept.
    pub fn exit_request(&mut self, code: Option<i32>, now: u64) -> (action: ExitAction)
        requires
            now <= u64::MAX - EXIT_CLEANUP_DELAY_MS,
        ensures
            action == if old(self).close@.phase == ClosePhase::ExitAllowed {
                ExitAction::Allow
            } else if old(self).close@.phase == ClosePhase::Running {
                ExitAction::StartBoundedClose
            } else {
                ExitAction::Prevent
            },
            action == ExitAction::StartBoundedClose ==> {
                let deadline = (now + EXIT_CLEANUP_DELAY_MS) as u64;
                &&& final(self).cleanup_deadline == Some(match old(self).cleanup_deadline {
                    Some(current) => if current <= deadline {
                        current
                    } else {
                        deadline
                    },
                    None => deadline,
                })
                &&& final(self).exit_code == match code {
                    Some(c) => c,
                    None => old(self).exit_code,
                }
            },
            action != ExitAction::StartBoundedClose ==> final(self).cleanup_deadline == old(
                self,
            ).cleanup_deadline && final(self).exit_code == old(self).exit_code,
            final(self).close@ == old(self).close@,
    {
        let action = self.close.exit_requested();
        match action {
            ExitAction::StartBoundedClose => {},
            _ => return action,
        }
        let deadline = now + EXIT_CLEANUP_DELAY_MS;
        self.cleanup_deadline = Some(
            match self.cleanup_deadline {
                Some(current) => if current <= deadline {
                    current
                } else {
                    deadline
                },
                None => deadline,
            },
        );
        match code {
            Some(c) => {
                self.exit_code = c;
            },
            None => {},
        }
        action
    }

    /// One look by the close-cleanup monitor at monotonic `now`: once the
    /// windows are gone and cleanup finished or its deadline passed, the
    /// process exits with the kept code, once.
    pub fn cleanup_step(&mut self, cleanup_complete: bool, now: u64) -> (step: CleanupStep)
        ensures
            !(destroyed(old(self).close@.phase) && (cleanup_complete || (old(
                self,
            ).cleanup_deadline matches Some(d) && now >= d))) ==> step == CleanupStep::Wait
                && final(self).close@ == old(self).close@,
            destroyed(old(self).close@.phase) && (cleanup_complete || (old(
                self,
            ).cleanup_deadline matches Some(d) && now >= d)) ==> {
                &&& old(self).close@.phase == ClosePhase::Headless ==> step == (CleanupStep::Exit {
                    code: old(self).exit_code,
                }) && final(self).close@.phase == ClosePhase::ExitAllowed
                &&& old(self).close@.phase == ClosePhase::ExitAllowed ==> step == CleanupStep::Stop
                    && final(self).close@ == old(self).close@
            },
    {
        let deadline_reached = match self.cleanup_deadline {
            Some(deadline) => now >= deadline,
            None => false,
        };
        if !(self.close.is_destroyed() && (cleanup_complete || deadline_reached)) {
            return CleanupStep::Wait;
        }
        if self.close.allow_exit() {
            CleanupStep::Exit { code: self.exit_code }
        } else {
            CleanupStep::Stop
        }
    }
}

} // verus!
