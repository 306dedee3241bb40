use vstd::prelude::*;
use vstd::view::View as _;

verus! {

/// Milliseconds the frontend gets to redact before a native close proceeds.
pub const REDACTION_DELAY_MS: u64 = 250;
/// Milliseconds an exit request waits for clipboard cleanup.
pub const EXIT_CLEANUP_DELAY_MS: u64 = 2000;
/// The largest integer a JavaScript number holds exactly.
pub const MAX_JAVASCRIPT_INTEGER: u64 = 9_007_199_254_740_991;

/// How the main window is shown.
#[derive(Clone, Copy, Debug, Eq, PartialEq)]
pub enum View {
    Expanded,
    Rolled,
}

/// Why a window operation was refused.
#[derive(Debug)]
pub enum WindowServiceError {
    InvalidContentHeight,
    InvalidGeometry,
    MonitorUnavailable,
    UnexpectedWindowLabel { expected: &'static str, actual: String },
}

/// The zoom levels the interface offers, in percent.
pub open spec fn supported_zoom(percent: i32) -> bool {
    percent == 75 || percent == 90 || percent == 100 || percent == 110 || percent == 125 || percent
        == 150 || percent == 175 || percent == 200
}

/// Accepts exactly the offered zoom levels.
pub fn validate_zoom_percent(percent: i32) -> (result: Result<(), WindowServiceError>)
    ensures
        result is Ok <==> supported_zoom(percent),
        result matches Err(e) ==> e is InvalidGeometry,
{
    if percent == 75 || percent == 90 || percent == 100 || percent == 110 || percent == 125
        || percent == 150 || percent == 175 || percent == 200 {
        Ok(())
    } else {
        Err(WindowServiceError::InvalidGeometry)
    }
}

/// One of the two application windows.
#[derive(Clone, Copy, Debug, Eq, PartialEq)]
pub enum Surface {
    Main,
    About,
}

/// Names one deferred collapse; a newer one makes older ones stale.
#[derive(Clone, Copy, Debug, Eq, PartialEq)]
pub struct RollToken(u64);

impl vstd::view::View for RollToken {
    type V = u64;

    closed spec fn view(&self) -> u64 {
        self.0
    }
}

/// The token of generation `g`.
pub closed spec fn token_of(g: u64) -> RollToken {
    RollToken(g)
}

/// A token carries the generation it was made with.
pub proof fn lemma_token_of(g: u64)
    ensures
        token_of(g)@ == g,
{
}

impl RollToken {
    /// The generation number the token carries.
    pub fn generation(self) -> (g: u64)
        ensures
            g == self@,
    {
        self.0
    }
}

/// Whether the main window must roll up now.
#[derive(Clone, Copy, Debug, Eq, PartialEq)]
pub enum ViewAction {
    Unchanged,
    Roll,
}

/// What to do with the deferred-collapse timer.
#[derive(Clone, Copy, Debug, Eq, PartialEq)]
pub enum TimerAction {
    Unchanged,
    Cancel,
    Defer { token: RollToken },
}

/// What the shell must apply after an event. `opacity` is in percent.
#[derive(Clone, Copy, Debug, Eq, PartialEq)]
pub struct Effects {
    pub opacity: u32,
    pub view: ViewAction,
    pub timer: TimerAction,
}

/// The state of the window coordinator.
pub struct CoordinatorView {
    pub main_focused: bool,
    pub about_focused: bool,
    pub main_pointer_inside: bool,
    pub about_pointer_inside: bool,
    pub about_open: bool,
    pub high_contrast: bool,
    pub rolled: bool,
    pub next_generation: u64,
    pub pending_roll: Option<RollToken>,
}

/// Some application window has focus.
pub open spec fn active(v: CoordinatorView) -> bool {
    v.main_focused || (v.about_open && v.about_focused)
}

/// The pointer is over some application window.
pub open spec fn hovered(v: CoordinatorView) -> bool {
    v.main_pointer_inside || (v.about_open && v.about_pointer_inside)
}

/// Full opacity in high contrast or when active, 95% when only hovered,
/// 85% otherwise.
pub open spec fn opacity_of(v: CoordinatorView) -> u32 {
    if v.high_contrast || active(v) {
        100
    } else if hovered(v) {
        95
    } else {
        85
    }
}

/// The window may collapse: no high contrast, no focus, no About pane, not
/// already rolled.
pub open spec fn roll_eligible(v: CoordinatorView) -> bool {
    !v.high_contrast && !active(v) && !v.about_open && !v.rolled
}

/// The next token generation: one more, skipping zero on wrap-around.
pub open spec fn next_generation_after(g: u64) -> u64 {
    if g == u64::MAX {
        1
    } else {
        (g + 1) as u64
    }
}

/// The effects of a state with no timer or view change.
pub open spec fn steady_effects(v: CoordinatorView) -> Effects {
    Effects { opacity: opacity_of(v), view: ViewAction::Unchanged, timer: TimerAction::Unchanged }
}

/// Schedules a collapse when one becomes possible and none is pending, and
/// cancels the pending one when collapse is no longer possible.
pub open spec fn reconciled(v: CoordinatorView) -> (CoordinatorView, Effects) {
    if roll_eligible(v) {
        match v.pending_roll {
            Some(_) => (v, steady_effects(v)),
            None => {
                let g = next_generation_after(v.next_generation);
                let token = token_of(g);
                let w = CoordinatorView { next_generation: g, pending_roll: Some(token), ..v };
                (w, Effects { opacity: opacity_of(w), view: ViewAction::Unchanged, timer: TimerAction::Defer { token } })
            },
        }
    } else {
        match v.pending_roll {
            Some(_) => {
                let w = CoordinatorView { pending_roll: None, ..v };
                (w, Effects { opacity: opacity_of(w), view: ViewAction::Unchanged, timer: TimerAction::Cancel })
            },
            None => (v, steady_effects(v)),
        }
    }
}

/// The coordinator and effects after `surface` gained or lost focus. Focus
/// on a closed About pane, or no change, leaves everything as it was.
pub open spec fn focus_set(v: CoordinatorView, surface: Surface, focused: bool) -> (CoordinatorView, Effects) {
    if surface == Surface::About && !v.about_open {
        (v, steady_effects(v))
    } else if surface == Surface::Main {
        if v.main_focused == focused {
            (v, steady_effects(v))
        } else {
            reconciled(CoordinatorView { main_focused: focused, ..v })
        }
    } else if v.about_focused == focused {
        (v, steady_effects(v))
    } else {
        reconciled(CoordinatorView { about_focused: focused, ..v })
    }
}

/// The coordinator and effects after the pointer entered or left `surface`:
/// only the pointer flag and so the opacity change. The pointer over a
/// closed About pane is ignored.
pub open spec fn pointer_set(v: CoordinatorView, surface: Surface, inside: bool) -> (CoordinatorView, Effects) {
    let w = if surface == Surface::About && !v.about_open {
        v
    } else if surface == Surface::Main {
        CoordinatorView { main_pointer_inside: inside, ..v }
    } else {
        CoordinatorView { about_pointer_inside: inside, ..v }
    };
    (w, steady_effects(w))
}

/// The coordinator and effects after the About pane opened or closed;
/// closing also forgets its focus and hover.
pub open spec fn about_set(v: CoordinatorView, open: bool) -> (CoordinatorView, Effects) {
    if v.about_open == open {
        (v, steady_effects(v))
    } else if open {
        reconciled(CoordinatorView { about_open: true, ..v })
    } else {
        reconciled(
            CoordinatorView {
                about_open: false,
                about_focused: false,
                about_pointer_inside: false,
                ..v
            },
        )
    }
}

/// The coordinator and effects after high contrast was turned on or off.
pub open spec fn contrast_set(v: CoordinatorView, enabled: bool) -> (CoordinatorView, Effects) {
    if v.high_contrast == enabled {
        (v, steady_effects(v))
    } else {
        reconciled(CoordinatorView { high_contrast: enabled, ..v })
    }
}

/// Reconciling never expands or rolls the window itself; it only schedules
/// or cancels the deferred collapse. Under high contrast, with focus, or
/// with the About pane open, nothing stays scheduled.
pub proof fn lemma_reconcile_only_schedules(v: CoordinatorView)
    ensures
        reconciled(v).0.rolled == v.rolled,
        reconciled(v).1.view == ViewAction::Unchanged,
        reconciled(v).1.opacity == opacity_of(reconciled(v).0),
        (v.high_contrast || active(v) || v.about_open || v.rolled) ==> {
            &&& reconciled(v).0.pending_roll is None
            &&& !(reconciled(v).1.timer is Defer)
        },
        reconciled(v).1.timer is Defer ==> v.pending_roll is None,
{
}

/// The pointer over the open About pane counts as much as the pointer over
/// the main window: entering either gives opacity 95 when no window has
/// focus and high contrast is off, and 100 otherwise. Entering never leaves
/// the window fainter than leaving would; leaving the last hovered window,
/// with no focus and no high contrast, gives 85.
pub proof fn lemma_hover_over_either_window(v: CoordinatorView, surface: Surface)
    requires
        surface == Surface::About ==> v.about_open,
    ensures
        pointer_set(v, surface, true).1.opacity == pointer_set(v, Surface::Main, true).1.opacity,
        pointer_set(v, surface, true).1.opacity == (if v.high_contrast || v.main_focused || (
        v.about_open && v.about_focused) {
            100u32
        } else {
            95u32
        }),
        pointer_set(v, surface, true).1.opacity >= pointer_set(v, surface, false).1.opacity,
        !v.high_contrast && !v.main_focused && !(v.about_open && v.about_focused) && (surface
            == Surface::Main ==> !v.about_pointer_inside) && (surface == Surface::About
            ==> !v.main_pointer_inside) ==> pointer_set(v, surface, false).1.opacity == 85,
{
}

/// Decides opacity and collapse from focus, hover, About pane and contrast.
pub struct Coordinator {
    main_focused: bool,
    about_focused: bool,
    main_pointer_inside: bool,
    about_pointer_inside: bool,
    about_open: bool,
    high_contrast: bool,
    rolled: bool,
    next_generation: u64,
    pending_roll: Option<RollToken>,
}

impl vstd::view::View for Coordinator {
    type V = CoordinatorView;

    closed spec fn view(&self) -> CoordinatorView {
        CoordinatorView {
            main_focused: self.main_focused,
            about_focused: self.about_focused,
            main_pointer_inside: self.main_pointer_inside,
            about_pointer_inside: self.about_pointer_inside,
            about_open: self.about_open,
            high_contrast: self.high_contrast,
            rolled: self.rolled,
            next_generation: self.next_generation,
            pending_roll: self.pending_roll,
        }
    }
}

impl Default for Coordinator {
    fn default() -> (c: Self)
        ensures
            c@ == (CoordinatorView {
                main_focused: false,
                about_focused: false,
                main_pointer_inside: false,
                about_pointer_inside: false,
                about_open: false,
                high_contrast: false,
                rolled: false,
                next_generation: 0,
                pending_roll: None,
            }),
    {
        Coordinator {
            main_focused: false,
            about_focused: false,
            main_pointer_inside: false,
            about_pointer_inside: false,
            about_open: false,
            high_contrast: false,
            rolled: false,
            next_generation: 0,
            pending_roll: None,
        }
    }
}

impl Coordinator {
    fn active(&self) -> (r: bool)
        ensures
            r == active(self@),
    {
        self.main_focused || (self.about_open && self.about_focused)
    }

    fn hovered(&self) -> (r: bool)
        ensures
            r == hovered(self@),
    {
        self.main_pointer_inside || (self.about_open && self.about_pointer_inside)
    }

    fn opacity(&self) -> (percent: u32)
        ensures
            percent == opacity_of(self@),
    {
        if self.high_contrast || self.active() {
            100
        } else if self.hovered() {
            95
        } else {
            85
        }
    }

    fn roll_eligible(&self) -> (r: bool)
        ensures
            r == roll_eligible(self@),
    {
        !self.high_contrast && !self.active() && !self.about_open && !self.rolled
    }

    fn steady(&self) -> (effects: Effects)
        ensures
            effects == steady_effects(self@),
    {
        Effects { opacity: self.opacity(), view: ViewAction::Unchanged, timer: TimerAction::Unchanged }
    }

    fn next_token(&mut self) -> (token: RollToken)
        ensures
            final(self)@ == (CoordinatorView {
                next_generation: next_generation_after(old(self)@.next_generation),
                ..old(self)@
            }),
            token@ == next_generation_after(old(self)@.next_generation),
            token@ != 0,
    {
        self.next_generation = self.next_generation.wrapping_add(1);
        if self.next_generation == 0 {
            self.next_generation = 1;
        }
        RollToken(self.next_generation)
    }

    fn reconcile(&mut self) -> (effects: Effects)
        ensures
            (final(self)@, effects) == reconciled(old(self)@),
    {
        let eligible = self.roll_eligible();
        let timer = if eligible {
            match self.pending_roll {
                Some(_) => TimerAction::Unchanged,
                None => {
                    let token = self.next_token();
                    self.pending_roll = Some(token);
                    TimerAction::Defer { token }
                },
            }
        } else {
            match self.pending_roll.take() {
                Some(_) => TimerAction::Cancel,
                None => TimerAction::Unchanged,
            }
        };
        Effects { opacity: self.opacity(), view: ViewAction::Unchanged, timer }
    }

    /// Records that `surface` gained or lost focus. Focus on a closed About
    /// pane is ignored.
    pub fn set_focus(&mut self, surface: Surface, focused: bool) -> (effects: Effects)
        ensures
            (final(self)@, effects) == focus_set(old(self)@, surface, focused),
            surface == Surface::About && !old(self)@.about_open ==> final(self)@ == old(self)@
                && effects == steady_effects(old(self)@),
            surface == Surface::Main && old(self)@.main_focused == focused ==> final(self)@
                == old(self)@ && effects == steady_effects(old(self)@),
            surface == Surface::About && old(self)@.about_open && old(self)@.about_focused
                == focused ==> final(self)@ == old(self)@ && effects == steady_effects(old(self)@),
            surface == Surface::Main && old(self)@.main_focused != focused ==> (final(self)@, effects)
                == reconciled(CoordinatorView { main_focused: focused, ..old(self)@ }),
            surface == Surface::About && old(self)@.about_open && old(self)@.about_focused
                != focused ==> (final(self)@, effects) == reconciled(
                CoordinatorView { about_focused: focused, ..old(self)@ },
            ),
    {
        if matches!(surface, Surface::About) && !self.about_open {
            return self.steady();
        }
        match surface {
            Surface::Main => {
                if self.main_focused == focused {
                    return self.steady();
                }
                self.main_focused = focused;
            },
            Surface::About => {
                if self.about_focused == focused {
                    return self.steady();
                }
                self.about_focused = focused;
            },
        }
        self.reconcile()
    }

    /// Records the pointer entering or leaving `surface`. Hover changes only
    /// opacity: it never schedules, cancels or performs a collapse, and never
    /// expands.
    pub fn set_pointer_inside(&mut self, surface: Surface, inside: bool) -> (effects: Effects)
        ensures
            (final(self)@, effects) == pointer_set(old(self)@, surface, inside),
            final(self)@ == if surface == Surface::About && !old(self)@.about_open {
                old(self)@
            } else if surface == Surface::Main {
                CoordinatorView { main_pointer_inside: inside, ..old(self)@ }
            } else {
                CoordinatorView { about_pointer_inside: inside, ..old(self)@ }
            },
            effects == steady_effects(final(self)@),
            final(self)@.rolled == old(self)@.rolled,
            final(self)@.pending_roll == old(self)@.pending_roll,
            effects.view == ViewAction::Unchanged,
            effects.timer == TimerAction::Unchanged,
    {
        if matches!(surface, Surface::About) && !self.about_open {
            return self.steady();
        }
        match surface {
            Surface::Main => {
                if self.main_pointer_inside == inside {
                    return self.steady();
                }
                self.main_pointer_inside = inside;
            },
            Surface::About => {
                if self.about_pointer_inside == inside {
                    return self.steady();
                }
                self.about_pointer_inside = inside;
            },
        }
        self.steady()
    }

    /// Records the About pane opening or closing; closing also forgets its
    /// focus and hover.
    pub fn set_about_open(&mut self, open: bool) -> (effects: Effects)
        ensures
            (final(self)@, effects) == about_set(old(self)@, open),
            old(self)@.about_open == open ==> final(self)@ == old(self)@ && effects
                == steady_effects(old(self)@),
            old(self)@.about_open != open && open ==> (final(self)@, effects) == reconciled(
                CoordinatorView { about_open: true, ..old(self)@ },
            ),
            old(self)@.about_open != open && !open ==> (final(self)@, effects) == reconciled(
                CoordinatorView {
                    about_open: false,
                    about_focused: false,
                    about_pointer_inside: false,
                    ..old(self)@
                },
            ),
    {
        if self.about_open == open {
            return self.steady();
        }
        self.about_open = open;
        if !open {
            self.about_focused = false;
            self.about_pointer_inside = false;
        }
        self.reconcile()
    }

    /// Records whether the system uses high contrast, which keeps the window
    /// opaque and expanded.
    pub fn set_high_contrast(&mut self, enabled: bool) -> (effects: Effects)
        ensures
            (final(self)@, effects) == contrast_set(old(self)@, enabled),
            old(self)@.high_contrast == enabled ==> final(self)@ == old(self)@ && effects
                == steady_effects(old(self)@),
            old(self)@.high_contrast != enabled ==> (final(self)@, effects) == reconciled(
                CoordinatorView { high_contrast: enabled, ..old(self)@ },
            ),
    {
        if self.high_contrast == enabled {
            return self.steady();
        }
        self.high_contrast = enabled;
        self.reconcile()
    }

    /// Records the view the shell applied.
    pub fn note_view(&mut self, view: View)
        ensures
            final(self)@ == (CoordinatorView { rolled: view == View::Rolled, ..old(self)@ }),
    {
        self.rolled = matches!(view, View::Rolled);
    }

    /// The deferred collapse named by `token` is due. It rolls the window only
    /// when `token` is the pending one and collapse is still possible.
    pub fn roll_due(&mut self, token: RollToken) -> (effects: Effects)
        ensures
            old(self)@.pending_roll == Some(token) && roll_eligible(old(self)@) ==> {
                &&& final(self)@ == (CoordinatorView {
                    pending_roll: None,
                    rolled: true,
                    ..old(self)@
                })
                &&& effects == (Effects {
                    opacity: opacity_of(final(self)@),
                    view: ViewAction::Roll,
                    timer: TimerAction::Unchanged,
                })
            },
            !(old(self)@.pending_roll == Some(token) && roll_eligible(old(self)@)) ==> final(self)@
                == old(self)@ && effects == steady_effects(old(self)@),
    {
        let pending = match self.pending_roll {
            Some(pending) => pending.0 == token.0,
            None => false,
        };
        if !pending || !self.roll_eligible() {
            return self.steady();
        }
        self.pending_roll = None;
        self.rolled = true;
        Effects { opacity: self.opacity(), view: ViewAction::Roll, timer: TimerAction::Unchanged }
    }

    /// The pending deferred collapse, if any.
    pub fn pending_roll(&self) -> (token: Option<RollToken>)
        ensures
            token == self@.pending_roll,
    {
        self.pending_roll
    }

    /// Whether the window is rolled up.
    pub fn is_rolled(&self) -> (r: bool)
        ensures
            r == self@.rolled,
    {
        self.rolled
    }

    /// Whether high contrast is on.
    pub fn is_high_contrast(&self) -> (r: bool)
        ensures
            r == self@.high_contrast,
    {
        self.high_contrast
    }
}

/// How a close request starts.
#[derive(Clone, Copy, Debug, Eq, PartialEq)]
pub enum CloseStart {
    AlreadyClosing,
    DestroyNow,
    AwaitRedaction { ticket: u64, after: u64 },
}

/// What a redaction acknowledgement or timeout leads to.
#[derive(Clone, Copy, Debug, Eq, PartialEq)]
pub enum RedactionAction {
    Stale,
    Unchanged,
    DestroyNow,
}

/// How to answer a request to exit the process.
#[derive(Clone, Copy, Debug, Eq, PartialEq)]
pub enum ExitAction {
    Allow,
    StartBoundedClose,
    Prevent,
}

/// Where the close sequence stands.
#[derive(Clone, Copy, Debug, Eq, PartialEq)]
pub enum ClosePhase {
    Running,
    AwaitingRedaction(u64),
    ReadyToDestroy,
    Headless,
    ExitAllowed,
}

/// The state of the close sequence.
pub struct CloseView {
    pub phase: ClosePhase,
    pub next_ticket: u64,
}

/// The ticket after `t`: one more, back to 1 past the largest JavaScript
/// integer.
pub open spec fn ticket_after(t: u64) -> u64 {
    if t >= MAX_JAVASCRIPT_INTEGER {
        1
    } else {
        (t + 1) as u64
    }
}

/// A close has begun.
pub open spec fn closing(phase: ClosePhase) -> bool {
    phase != ClosePhase::Running
}

/// The windows are gone.
pub open spec fn destroyed(phase: ClosePhase) -> bool {
    phase == ClosePhase::Headless || phase == ClosePhase::ExitAllowed
}

/// Sequences closing: redact, destroy the windows, then let the process exit.
pub struct CloseReducer {
    phase: ClosePhase,
    next_ticket: u64,
}

impl vstd::view::View for CloseReducer {
    type V = CloseView;

    closed spec fn view(&self) -> CloseView {
        CloseView { phase: self.phase, next_ticket: self.next_ticket }
    }
}

impl Default for CloseReducer {
    fn default() -> (c: Self)
        ensures
            c@ == (CloseView { phase: ClosePhase::Running, next_ticket: 0 }),
    {
        CloseReducer { phase: ClosePhase::Running, next_ticket: 0 }
    }
}

impl CloseReducer {
    /// The frontend asked to close after redacting itself: destroy at once.
    pub fn begin_frontend(&mut self) -> (start: CloseStart)
        ensures
            closing(old(self)@.phase) ==> closing(final(self)@.phase),
            destroyed(old(self)@.phase) ==> destroyed(final(self)@.phase),
            old(self)@.phase == ClosePhase::Running ==> start == CloseStart::DestroyNow
                && final(self)@ == (CloseView { phase: ClosePhase::ReadyToDestroy, ..old(self)@ }),
            old(self)@.phase != ClosePhase::Running ==> start == CloseStart::AlreadyClosing
                && final(self)@ == old(self)@,
    {
        if !matches!(self.phase, ClosePhase::Running) {
            return CloseStart::AlreadyClosing;
        }
        self.phase = ClosePhase::ReadyToDestroy;
        CloseStart::DestroyNow
    }

    /// The platform asked to close: the frontend must redact first, under a
    /// fresh ticket, within the redaction delay.
    pub fn begin_native(&mut self) -> (start: CloseStart)
        ensures
            closing(old(self)@.phase) ==> closing(final(self)@.phase),
            destroyed(old(self)@.phase) ==> destroyed(final(self)@.phase),
            old(self)@.phase == ClosePhase::Running ==> {
                let ticket = ticket_after(old(self)@.next_ticket);
                &&& start == CloseStart::AwaitRedaction { ticket, after: REDACTION_DELAY_MS }
                &&& final(self)@ == (CloseView {
                    phase: ClosePhase::AwaitingRedaction(ticket),
                    next_ticket: ticket,
                })
                &&& 1 <= ticket <= MAX_JAVASCRIPT_INTEGER
            },
            old(self)@.phase != ClosePhase::Running ==> start == CloseStart::AlreadyClosing
                && final(self)@ == old(self)@,
    {
        if !matches!(self.phase, ClosePhase::Running) {
            return CloseStart::AlreadyClosing;
        }
        let ticket = self.next_ticket();
        self.phase = ClosePhase::AwaitingRedaction(ticket);
        CloseStart::AwaitRedaction { ticket, after: REDACTION_DELAY_MS }
    }

    /// The frontend acknowledged redaction under `ticket`. Only the awaited
    /// ticket leads to destruction; any other is stale and changes nothing.
    pub fn acknowledge(&mut self, ticket: u64) -> (action: RedactionAction)
        ensures
            closing(old(self)@.phase) ==> closing(final(self)@.phase),
            destroyed(old(self)@.phase) ==> destroyed(final(self)@.phase),
            old(self)@.phase == ClosePhase::AwaitingRedaction(ticket) ==> action
                == RedactionAction::DestroyNow && final(self)@ == (CloseView {
                phase: ClosePhase::ReadyToDestroy,
                ..old(self)@
            }),
            old(self)@.phase != ClosePhase::AwaitingRedaction(ticket) ==> action
                == RedactionAction::Stale && final(self)@ == old(self)@,
    {
        match self.phase {
            ClosePhase::AwaitingRedaction(expected) => {
                if expected == ticket {
                    self.phase = ClosePhase::ReadyToDestroy;
                    RedactionAction::DestroyNow
                } else {
                    RedactionAction::Stale
                }
            },
            _ => RedactionAction::Stale,
        }
    }

    /// The redaction delay for `ticket` ran out: destroy without the
    /// acknowledgement, unless that close already moved on.
    pub fn redaction_due(&mut self, ticket: u64) -> (action: RedactionAction)
        ensures
            closing(old(self)@.phase) ==> closing(final(self)@.phase),
            destroyed(old(self)@.phase) ==> destroyed(final(self)@.phase),
            old(self)@.phase == ClosePhase::AwaitingRedaction(ticket) ==> action
                == RedactionAction::DestroyNow && final(self)@ == (CloseView {
                phase: ClosePhase::ReadyToDestroy,
                ..old(self)@
            }),
            old(self)@.phase != ClosePhase::AwaitingRedaction(ticket) ==> action
                == RedactionAction::Unchanged && final(self)@ == old(self)@,
    {
        let awaited = match self.phase {
            ClosePhase::AwaitingRedaction(expected) => expected == ticket,
            _ => false,
        };
        if awaited {
            self.phase = ClosePhase::ReadyToDestroy;
            RedactionAction::DestroyNow
        } else {
            RedactionAction::Unchanged
        }
    }

    /// The windows are about to be destroyed; true exactly once.
    pub fn mark_destroyed(&mut self) -> (first: bool)
        ensures
            closing(old(self)@.phase) ==> closing(final(self)@.phase),
            destroyed(old(self)@.phase) ==> destroyed(final(self)@.phase),
            first == (old(self)@.phase == ClosePhase::ReadyToDestroy),
            first ==> final(self)@ == (CloseView { phase: ClosePhase::Headless, ..old(self)@ }),
            !first ==> final(self)@ == old(self)@,
    {
        if !matches!(self.phase, ClosePhase::ReadyToDestroy) {
            return false;
        }
        self.phase = ClosePhase::Headless;
        true
    }

    /// How to answer an exit request: allow only after `allow_exit`, start a
    /// bounded close while running, otherwise hold the exit back.
    pub fn exit_requested(&self) -> (action: ExitAction)
        ensures
            action == if self@.phase == ClosePhase::ExitAllowed {
                ExitAction::Allow
            } else if self@.phase == ClosePhase::Running {
                ExitAction::StartBoundedClose
            } else {
                ExitAction::Prevent
            },
    {
        match self.phase {
            ClosePhase::ExitAllowed => ExitAction::Allow,
            ClosePhase::Running => ExitAction::StartBoundedClose,
            _ => ExitAction::Prevent,
        }
    }

    /// Lets a close in progress end the process; true the first time.
    pub fn allow_exit(&mut self) -> (first: bool)
        ensures
            closing(old(self)@.phase) ==> closing(final(self)@.phase),
            destroyed(old(self)@.phase) ==> destroyed(final(self)@.phase),
            first == (closing(old(self)@.phase) && old(self)@.phase != ClosePhase::ExitAllowed),
            first ==> final(self)@ == (CloseView { phase: ClosePhase::ExitAllowed, ..old(self)@ }),
            !first ==> final(self)@ == old(self)@,
    {
        if matches!(self.phase, ClosePhase::Running | ClosePhase::ExitAllowed) {
            return false;
        }
        self.phase = ClosePhase::ExitAllowed;
        true
    }

    /// A close has begun.
    pub fn is_closing(&self) -> (r: bool)
        ensures
            r == closing(self@.phase),
    {
        !matches!(self.phase, ClosePhase::Running)
    }

    /// The windows are gone.
    pub fn is_destroyed(&self) -> (r: bool)
        ensures
            r == destroyed(self@.phase),
    {
        matches!(self.phase, ClosePhase::Headless | ClosePhase::ExitAllowed)
    }

    fn next_ticket(&mut self) -> (ticket: u64)
        ensures
            ticket == ticket_after(old(self)@.next_ticket),
            final(self)@ == (CloseView { next_ticket: ticket, ..old(self)@ }),
            1 <= ticket <= MAX_JAVASCRIPT_INTEGER,
    {
        self.next_ticket = if self.next_ticket >= MAX_JAVASCRIPT_INTEGER {
            1
        } else {
            self.next_ticket + 1
        };
        self.next_ticket
    }
}

} // verus!
