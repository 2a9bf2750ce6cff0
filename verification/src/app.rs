//! The switcher itself: which window is selected, and what the overlay does.

use crate::args::{AltTabAction, Args};
#[allow(unused_imports)]
use crate::args::action_of;
use crate::carousel::{center, distance_fits, layout_cards, Overlay};
#[allow(unused_imports)]
use crate::carousel::{card_views, cards_of, comparable, is_centered, margins_of};
use crate::clock::Clock;
use crate::message::{Cmd, Details, Effect, Event, Msg};
use crate::window::{find_window, owned_pixels, remove_windows, Thumbnail, Window};
#[allow(unused_imports)]
use crate::window::{
    first_with_handle, has_handle, lemma_replace_first_absent, lemma_replace_first_at,
    replace_first, window_views, without_handle, ThumbnailView, WindowView,
};
use vstd::prelude::*;

verus! {

/// How long a fade takes, in milliseconds.
pub const FADE_DURATION_MS: u64 = 250;

/// The number of nanoseconds in a millisecond.
pub const NANOS_PER_MS: u64 = 1_000_000;

/// The time between two ticks of a fade, in milliseconds.
pub const FADE_TICK_MS: u64 = 8;

/// A source of messages.
#[derive(Debug, Clone, Copy, PartialEq, Eq, Structural)]
pub enum Subscription {
    /// A [`Msg::FadeTick`] every [`FADE_TICK_MS`].
    FadeTick,
    Keyboard,
    Backend,
}

/// Where the overlay is in its fade.
#[derive(Debug, Clone, Copy, PartialEq, Eq, Structural)]
pub enum FadePhase {
    Idle,
    FadingIn,
    Open,
    FadingOut,
}

impl Default for FadePhase {
    fn default() -> (phase: FadePhase)
        ensures
            phase == FadePhase::Idle,
    {
        FadePhase::Idle
    }
}

/// The state of the switcher. Moments are nanoseconds on its clock.
pub struct AppView {
    pub clock: Clock,
    pub windows: Seq<WindowView>,
    pub selected: nat,
    pub layer_surface: Option<u64>,
    /// Whether commands can be sent.
    pub connected: bool,
    pub alt_was_held: bool,
    pub visible: bool,
    pub fade_phase: FadePhase,
    pub fade_start: Option<u64>,
    /// The surface to destroy when the fade-out is over.
    pub pending_close: Option<u64>,
    /// The action of the launch, until the selection is moved or the overlay is
    /// dismissed: its step is taken as the windows come in.
    pub pending_action: Option<AltTabAction>,
    /// Escape has cancelled the switch: the fade-out ends without one.
    pub cancelled: bool,
}

/// The whole milliseconds from one moment to a later one, none if it is earlier.
pub open spec fn millis_between(start: u64, now: u64) -> nat {
    if now >= start {
        ((now - start) / NANOS_PER_MS as int) as nat
    } else {
        0
    }
}

/// The place one step from the first of some windows, in the direction of an
/// action.
pub open spec fn first_step(action: AltTabAction, count: nat) -> nat {
    if count <= 1 {
        0
    } else {
        match action {
            AltTabAction::AltTab => 1,
            AltTabAction::ShiftAltTab => (count - 1) as nat,
        }
    }
}

/// One request for a fresh capture per window, in the order of the windows.
pub open spec fn capture_requests(windows: Seq<WindowView>) -> Seq<Effect> {
    windows.map_values(|window: WindowView| Effect::Send(Cmd::CaptureToplevel(window.handle)))
}

impl AppView {
    /// The switcher before anything has happened.
    pub open spec fn initial(clock: Clock) -> AppView {
        AppView {
            clock,
            windows: Seq::empty(),
            selected: 0,
            layer_surface: None,
            connected: false,
            alt_was_held: true,
            visible: false,
            fade_phase: FadePhase::Idle,
            fade_start: None,
            pending_close: None,
            pending_action: None,
            cancelled: false,
        }
    }

    /// The switcher as it is launched, and what is to be done: with an action the
    /// overlay comes up at once, and the action waits for the windows.
    pub open spec fn launched(
        clock: Clock,
        action: Option<AltTabAction>,
        fresh: u64,
        now: u64,
    ) -> (AppView, Seq<Effect>) {
        if action is Some {
            let (shown, effects) = AppView::initial(clock).show(fresh, now);
            (AppView { pending_action: action, ..shown }, effects)
        } else {
            (AppView::initial(clock), Seq::empty())
        }
    }

    /// The overlay's state hangs together: there is a surface exactly while the
    /// overlay is visible, a fade is timed exactly while one is running, and a
    /// fade-out is going to destroy the surface that is up. While the overlay is
    /// visible Alt counts as held, an action waits only while the overlay is
    /// neither down nor fading out, and a switch is cancelled only during a
    /// fade-out.
    pub open spec fn consistent(self) -> bool {
        &&& self.visible ==> self.alt_was_held
        &&& self.pending_action is Some ==> self.fade_phase == FadePhase::FadingIn
            || self.fade_phase == FadePhase::Open
        &&& self.cancelled ==> self.fade_phase == FadePhase::FadingOut
        &&& match self.fade_phase {
            FadePhase::Idle => {
                &&& !self.visible
                &&& self.layer_surface is None
                &&& self.fade_start is None
                &&& self.pending_close is None
            },
            FadePhase::FadingIn => {
                &&& self.visible
                &&& self.layer_surface is Some
                &&& self.fade_start is Some
                &&& self.pending_close is None
            },
            FadePhase::Open => {
                &&& self.visible
                &&& self.layer_surface is Some
                &&& self.fade_start is None
                &&& self.pending_close is None
            },
            FadePhase::FadingOut => {
                &&& self.visible
                &&& self.layer_surface is Some
                &&& self.fade_start is Some
                &&& self.pending_close == self.layer_surface
            },
        }
    }

    /// How long the running fade has taken at a moment, in milliseconds.
    pub open spec fn fade_elapsed(self, now: u64) -> nat {
        match self.fade_start {
            Some(start) => millis_between(start, now),
            None => 0,
        }
    }

    /// The overlay comes up, under a new number, unless it is up already.
    /// Captures of all windows are renewed: the old ones may be stale.
    pub open spec fn show(self, fresh: u64, now: u64) -> (AppView, Seq<Effect>) {
        if self.visible {
            (self, Seq::empty())
        } else {
            (
                AppView {
                    visible: true,
                    alt_was_held: true,
                    fade_phase: FadePhase::FadingIn,
                    fade_start: Some(now),
                    layer_surface: Some(fresh),
                    ..self
                },
                (if self.connected {
                    capture_requests(self.windows)
                } else {
                    Seq::empty()
                }).push(Effect::GetLayerSurface(fresh)),
            )
        }
    }

    /// The overlay starts to fade out, unless it is down or fading out already.
    pub open spec fn dismiss(self, now: u64) -> AppView {
        if self.visible && self.fade_phase != FadePhase::FadingOut {
            AppView {
                fade_phase: FadePhase::FadingOut,
                fade_start: Some(now),
                pending_close: self.layer_surface,
                pending_action: None,
                ..self
            }
        } else {
            self
        }
    }

    /// Escape dismisses the overlay, and cancels the switch for which it was up.
    pub open spec fn escape(self, now: u64) -> AppView {
        AppView { cancelled: self.visible, ..self.dismiss(now) }
    }

    /// A fade that has taken its time ends: after a fade-in the overlay is open,
    /// after a fade-out it is gone and its surface is destroyed.
    pub open spec fn fade_tick(self, now: u64) -> (AppView, Seq<Effect>) {
        if self.fade_start is None || self.fade_elapsed(now) < FADE_DURATION_MS {
            (self, Seq::empty())
        } else {
            match self.fade_phase {
                FadePhase::FadingIn => (
                    AppView { fade_phase: FadePhase::Open, fade_start: None, ..self },
                    Seq::empty(),
                ),
                FadePhase::FadingOut => (
                    AppView {
                        fade_phase: FadePhase::Idle,
                        fade_start: None,
                        visible: false,
                        layer_surface: None,
                        pending_close: None,
                        cancelled: false,
                        ..self
                    },
                    match self.pending_close {
                        Some(id) => seq![Effect::DestroyLayerSurface(id)],
                        None => Seq::empty(),
                    },
                ),
                _ => (self, Seq::empty()),
            }
        }
    }

    /// The selection moves on to the next window, and from the last to the first.
    pub open spec fn select_next(self) -> AppView {
        if self.windows.len() > 0 {
            AppView {
                selected: (self.selected + 1) % self.windows.len(),
                pending_action: None,
                ..self
            }
        } else {
            self
        }
    }

    /// The selection moves back to the previous window, and from the first to
    /// the last.
    pub open spec fn select_prev(self) -> AppView {
        if self.windows.len() > 0 {
            AppView {
                selected: (if self.selected == 0 {
                    self.windows.len() - 1
                } else {
                    self.selected - 1
                }) as nat,
                pending_action: None,
                ..self
            }
        } else {
            self
        }
    }

    /// The selected window, if there is one and commands can be sent, is brought
    /// to the front.
    pub open spec fn activation(self) -> Seq<Effect> {
        if self.connected && self.selected < self.windows.len() {
            seq![Effect::Send(Cmd::ActivateToplevel(self.windows[self.selected as int].handle))]
        } else {
            Seq::empty()
        }
    }

    /// The selected window is activated and the overlay starts to fade out.
    pub open spec fn activate_selected_and_close(self, now: u64) -> (AppView, Seq<Effect>) {
        (self.dismiss(now), self.activation())
    }

    /// Letting go of Alt while the overlay is up, fades included, activates the
    /// selected window. After Escape it changes nothing. Any other change is
    /// remembered.
    pub open spec fn modifiers_changed(self, alt_held: bool, now: u64) -> (AppView, Seq<Effect>) {
        if self.cancelled && !alt_held {
            (self, Seq::empty())
        } else if self.visible && self.alt_was_held && !alt_held {
            self.activate_selected_and_close(now)
        } else {
            (AppView { alt_was_held: alt_held, ..self }, Seq::empty())
        }
    }

    /// What a report of the compositor's side changes.
    pub open spec fn backend_event(self, event: Event) -> AppView {
        match event {
            Event::CmdSender => AppView { connected: true, ..self },
            Event::NewToplevel(handle, info) => AppView {
                windows: self.windows.push(
                    WindowView { handle, info: info@, thumbnail: None },
                ),
                // An action that waits takes its step among the windows so far.
                // Without one, as soon as there is a second window, it is selected
                // in place of the first.
                selected: match self.pending_action {
                    Some(action) => first_step(action, self.windows.len() + 1),
                    None => if self.windows.len() >= 1 && self.selected == 0 {
                        1
                    } else {
                        self.selected
                    },
                },
                ..self
            },
            Event::ToplevelCapture(handle, pixels, width, height) => AppView {
                windows: replace_first(
                    self.windows,
                    handle,
                    |window: WindowView|
                        WindowView {
                            thumbnail: Some(ThumbnailView { width, height, pixels: pixels@ }),
                            ..window
                        },
                ),
                ..self
            },
            Event::UpdateToplevel(handle, info) => AppView {
                windows: replace_first(
                    self.windows,
                    handle,
                    |window: WindowView| WindowView { info: info@, ..window },
                ),
                ..self
            },
            Event::CloseToplevel(handle) => {
                let windows = without_handle(self.windows, handle);
                AppView {
                    windows,
                    selected: if self.selected >= windows.len() && windows.len() > 0 {
                        (windows.len() - 1) as nat
                    } else {
                        self.selected
                    },
                    ..self
                }
            },
        }
    }

    /// What a message changes and what is to be done, given the number for a new
    /// surface and the moment.
    pub open spec fn update(self, message: Msg, fresh: u64, now: u64) -> (AppView, Seq<Effect>) {
        match message {
            Msg::Show => self.show(fresh, now),
            Msg::Hide => (self.dismiss(now), Seq::empty()),
            Msg::FadeTick => self.fade_tick(now),
            Msg::Next => (self.select_next(), Seq::empty()),
            Msg::Prev => (self.select_prev(), Seq::empty()),
            Msg::ModifiersChanged(alt_held) => self.modifiers_changed(alt_held, now),
            Msg::Escape => (self.escape(now), Seq::empty()),
            Msg::Activate(i) => AppView {
                selected: i as nat,
                cancelled: false,
                ..self
            }.activate_selected_and_close(now),
            Msg::Backend(event) => (self.backend_event(event), Seq::empty()),
            Msg::Surface => (self, Seq::empty()),
        }
    }

    /// The selection can move on without leaving the machine's integers.
    pub open spec fn can_advance(self) -> bool {
        self.windows.len() > 0 ==> self.selected < usize::MAX
    }

    /// The message is one that the switcher can take now.
    pub open spec fn accepts(self, message: Msg) -> bool {
        message is Next ==> self.can_advance()
    }

    /// What an action changes and what is to be done: the overlay comes up unless
    /// it is up already, and the selection moves. It asks for a switch anew, should
    /// the last one be cancelled.
    pub open spec fn perform(self, action: AltTabAction, fresh: u64, now: u64) -> (
        AppView,
        Seq<Effect>,
    ) {
        let (shown, effects) = self.show(fresh, now);
        match action {
            AltTabAction::AltTab => (
                AppView { cancelled: false, ..shown.select_next() },
                effects,
            ),
            AltTabAction::ShiftAltTab => (
                AppView { cancelled: false, ..shown.select_prev() },
                effects,
            ),
        }
    }

    /// The activation is one that the switcher can take now.
    pub open spec fn accepts_activation(self, details: Details) -> bool {
        match details {
            Details::ActivateAction(text) => action_of(text@) == Some(AltTabAction::AltTab)
                ==> self.can_advance(),
            _ => true,
        }
    }

    /// What an activation from outside changes and what is to be done.
    pub open spec fn dbus_activation(self, details: Details, fresh: u64, now: u64) -> (
        AppView,
        Seq<Effect>,
    ) {
        match details {
            Details::Activate => self.show(fresh, now),
            Details::ActivateAction(text) => match action_of(text@) {
                Some(action) => self.perform(action, fresh, now),
                None => (self, Seq::empty()),
            },
            Details::Open => (self, Seq::empty()),
        }
    }
}

impl AppView {
    /// The opacity of the overlay at a moment, in parts of the fade's duration: it
    /// rises with the fade-in and falls with the fade-out.
    pub open spec fn fade_alpha(self, now: u64) -> int {
        let elapsed = self.fade_elapsed(now);
        let faded = if elapsed < FADE_DURATION_MS {
            elapsed as int
        } else {
            FADE_DURATION_MS as int
        };
        match self.fade_phase {
            FadePhase::Idle => 0,
            FadePhase::Open => FADE_DURATION_MS as int,
            FadePhase::FadingIn => faded,
            FadePhase::FadingOut => FADE_DURATION_MS - faded,
        }
    }

    /// The distance of every card from the selection can be taken.
    pub open spec fn can_lay_out(self) -> bool {
        forall|i: usize|
            i < self.windows.len() ==> #[trigger] comparable(i, self.selected as usize)
    }

    /// What the switcher listens to: the ticks of a fade while one is running, and
    /// always the keyboard and the compositor's side.
    pub open spec fn subscription(self) -> Seq<Subscription> {
        (if self.fade_phase == FadePhase::FadingIn || self.fade_phase == FadePhase::FadingOut {
            seq![Subscription::FadeTick]
        } else {
            Seq::empty()
        }) + seq![Subscription::Keyboard, Subscription::Backend]
    }
}

/// The switcher.
#[derive(Debug)]
pub struct App {
    clock: Clock,
    windows: Vec<Window>,
    selected: usize,
    layer_surface: Option<u64>,
    connected: bool,
    alt_was_held: bool,
    visible: bool,
    fade_phase: FadePhase,
    fade_start: Option<u64>,
    pending_close: Option<u64>,
    pending_action: Option<AltTabAction>,
    cancelled: bool,
}

impl View for App {
    type V = AppView;

    closed spec fn view(&self) -> AppView {
        AppView {
            clock: self.clock,
            windows: window_views(self.windows@),
            selected: self.selected as nat,
            layer_surface: self.layer_surface,
            connected: self.connected,
            alt_was_held: self.alt_was_held,
            visible: self.visible,
            fade_phase: self.fade_phase,
            fade_start: self.fade_start,
            pending_close: self.pending_close,
            pending_action: self.pending_action,
            cancelled: self.cancelled,
        }
    }
}

impl App {
    fn show(&mut self, fresh: u64, now: u64) -> (effects: Vec<Effect>)
        ensures
            (final(self)@, effects@) == old(self)@.show(fresh, now),
    {
        let mut effects: Vec<Effect> = Vec::new();
        if self.visible {
            return effects;
        }
        self.visible = true;
        self.alt_was_held = true;
        self.fade_phase = FadePhase::FadingIn;
        self.fade_start = Some(now);
        if self.connected {
            let mut i: usize = 0;
            while i < self.windows.len()
                invariant
                    i <= self.windows.len(),
                    effects@ == capture_requests(window_views(self.windows@)).take(i as int),
                decreases self.windows.len() - i,
            {
                effects.push(Effect::Send(Cmd::CaptureToplevel(self.windows[i].handle)));
                i += 1;
            }
            assert(capture_requests(window_views(self.windows@)).take(i as int)
                =~= capture_requests(window_views(self.windows@)));
        }
        self.layer_surface = Some(fresh);
        effects.push(Effect::GetLayerSurface(fresh));
        effects
    }

    fn dismiss(&mut self, now: u64)
        ensures
            final(self)@ == old(self)@.dismiss(now),
    {
        if self.visible && self.fade_phase != FadePhase::FadingOut {
            self.fade_phase = FadePhase::FadingOut;
            self.fade_start = Some(now);
            self.pending_close = self.layer_surface;
            self.pending_action = None;
        }
    }

    fn fade_tick(&mut self, now: u64) -> (effects: Vec<Effect>)
        ensures
            (final(self)@, effects@) == old(self)@.fade_tick(now),
    {
        let mut effects: Vec<Effect> = Vec::new();
        if let Some(start) = self.fade_start {
            let elapsed: u64 = now.saturating_sub(start) / NANOS_PER_MS;
            if elapsed >= FADE_DURATION_MS {
                match self.fade_phase {
                    FadePhase::FadingIn => {
                        self.fade_phase = FadePhase::Open;
                        self.fade_start = None;
                    },
                    FadePhase::FadingOut => {
                        self.fade_phase = FadePhase::Idle;
                        self.fade_start = None;
                        self.visible = false;
                        self.layer_surface = None;
                        self.cancelled = false;
                        if let Some(id) = self.pending_close.take() {
                            effects.push(Effect::DestroyLayerSurface(id));
                        }
                    },
                    _ => {},
                }
            }
        }
        effects
    }

    fn select_next(&mut self)
        requires
            old(self)@.can_advance(),
        ensures
            final(self)@ == old(self)@.select_next(),
    {
        if !self.windows.is_empty() {
            self.selected = (self.selected + 1) % self.windows.len();
            self.pending_action = None;
        }
    }

    fn select_prev(&mut self)
        ensures
            final(self)@ == old(self)@.select_prev(),
    {
        if !self.windows.is_empty() {
            self.selected = if self.selected == 0 {
                self.windows.len() - 1
            } else {
                self.selected - 1
            };
            self.pending_action = None;
        }
    }

    fn activate_selected_and_close(&mut self, now: u64) -> (effects: Vec<Effect>)
        ensures
            (final(self)@, effects@) == old(self)@.activate_selected_and_close(now),
    {
        let mut effects: Vec<Effect> = Vec::new();
        if self.connected && self.selected < self.windows.len() {
            effects.push(Effect::Send(Cmd::ActivateToplevel(self.windows[self.selected].handle)));
        }
        self.dismiss(now);
        effects
    }

    fn backend_event(&mut self, event: Event)
        ensures
            final(self)@ == old(self)@.backend_event(event),
    {
        let ghost before = self@;
        match event {
            Event::CmdSender => {
                self.connected = true;
            },
            Event::NewToplevel(handle, info) => {
                self.windows.push(Window { handle, info, thumbnail: None });
                match self.pending_action {
                    Some(AltTabAction::AltTab) => {
                        self.selected = if self.windows.len() > 1 {
                            1
                        } else {
                            0
                        };
                    },
                    Some(AltTabAction::ShiftAltTab) => {
                        self.selected = self.windows.len() - 1;
                    },
                    None => {
                        if self.windows.len() > 1 && self.selected == 0 {
                            self.selected = 1;
                        }
                    },
                }
                assert(self@.windows =~= before.backend_event(event).windows);
            },
            Event::ToplevelCapture(handle, pixels, width, height) => {
                let ghost new = |window: WindowView|
                    WindowView {
                        thumbnail: Some(ThumbnailView { width, height, pixels: pixels@ }),
                        ..window
                    };
                match find_window(&self.windows, handle) {
                    Some(i) => {
                        let bytes = owned_pixels(pixels);
                        self.windows[i].thumbnail = Some(Thumbnail { width, height, pixels: bytes });
                        proof {
                            lemma_replace_first_at(before.windows, handle, new, i as int);
                            assert(self@.windows =~= before.windows.update(
                                i as int,
                                new(before.windows[i as int]),
                            ));
                        }
                    },
                    None => {
                        proof {
                            lemma_replace_first_absent(before.windows, handle, new);
                        }
                    },
                }
            },
            Event::UpdateToplevel(handle, info) => {
                let ghost new = |window: WindowView| WindowView { info: info@, ..window };
                match find_window(&self.windows, handle) {
                    Some(i) => {
                        self.windows[i].info = info;
                        proof {
                            lemma_replace_first_at(before.windows, handle, new, i as int);
                            assert(self@.windows =~= before.windows.update(
                                i as int,
                                new(before.windows[i as int]),
                            ));
                        }
                    },
                    None => {
                        proof {
                            lemma_replace_first_absent(before.windows, handle, new);
                        }
                    },
                }
            },
            Event::CloseToplevel(handle) => {
                remove_windows(&mut self.windows, handle);
                if self.selected >= self.windows.len() && !self.windows.is_empty() {
                    self.selected = self.windows.len() - 1;
                }
            },
        }
    }

    /// Whether the switcher can take a message now.
    pub fn accepts(&self, message: &Msg) -> (accepted: bool)
        ensures
            accepted == self@.accepts(*message),
    {
        match message {
            Msg::Next => self.windows.is_empty() || self.selected < usize::MAX,
            _ => true,
        }
    }

    /// Reacts to a message at a moment on the switcher's clock. A new surface
    /// goes by the number `fresh`.
    pub fn update_at(&mut self, message: Msg, fresh: u64, now: u64) -> (effects: Vec<Effect>)
        requires
            old(self)@.accepts(message),
        ensures
            (final(self)@, effects@) == old(self)@.update(message, fresh, now),
            old(self)@.consistent() ==> final(self)@.consistent(),
    {
        match message {
            Msg::Show => self.show(fresh, now),
            Msg::Hide => {
                self.dismiss(now);
                Vec::new()
            },
            Msg::FadeTick => self.fade_tick(now),
            Msg::Next => {
                self.select_next();
                Vec::new()
            },
            Msg::Prev => {
                self.select_prev();
                Vec::new()
            },
            Msg::ModifiersChanged(alt_held) => {
                if self.cancelled && !alt_held {
                    return Vec::new();
                }
                if self.visible && self.alt_was_held && !alt_held {
                    return self.activate_selected_and_close(now);
                }
                self.alt_was_held = alt_held;
                Vec::new()
            },
            Msg::Escape => {
                self.dismiss(now);
                self.cancelled = self.visible;
                Vec::new()
            },
            Msg::Activate(i) => {
                self.selected = i;
                self.cancelled = false;
                self.activate_selected_and_close(now)
            },
            Msg::Backend(event) => {
                self.backend_event(event);
                Vec::new()
            },
            Msg::Surface => Vec::new(),
        }
    }

    /// Reacts to a message at the moment that the clock shows. A new surface goes
    /// by the number `fresh`.
    pub fn update(&mut self, message: Msg, fresh: u64) -> (effects: Vec<Effect>)
        requires
            old(self)@.accepts(message),
        ensures
            exists|now: u64|
                old(self)@.clock.shows(now) && (final(self)@, effects@) == #[trigger] old(
                    self,
                )@.update(message, fresh, now),
            old(self)@.consistent() ==> final(self)@.consistent(),
    {
        let now: u64 = self.clock.nanos();
        self.update_at(message, fresh, now)
    }

    /// Carries out an action at a moment on the switcher's clock. A new surface
    /// goes by the number `fresh`.
    pub fn perform_at(&mut self, action: AltTabAction, fresh: u64, now: u64) -> (effects: Vec<
        Effect,
    >)
        requires
            action == AltTabAction::AltTab ==> old(self)@.can_advance(),
        ensures
            (final(self)@, effects@) == old(self)@.perform(action, fresh, now),
            old(self)@.consistent() ==> final(self)@.consistent(),
    {
        let effects = self.show(fresh, now);
        match action {
            AltTabAction::AltTab => self.select_next(),
            AltTabAction::ShiftAltTab => self.select_prev(),
        }
        self.cancelled = false;
        effects
    }

    /// Reacts to an activation from outside, at the moment that the clock shows.
    /// A new surface goes by the number `fresh`.
    pub fn dbus_activation(&mut self, details: Details, fresh: u64) -> (effects: Vec<Effect>)
        requires
            old(self)@.accepts_activation(details),
        ensures
            exists|now: u64|
                old(self)@.clock.shows(now) && (final(self)@, effects@) == #[trigger] old(
                    self,
                )@.dbus_activation(details, fresh, now),
            old(self)@.consistent() ==> final(self)@.consistent(),
    {
        let now: u64 = self.clock.nanos();
        let ghost before = self@;
        let effects = match details {
            Details::Activate => self.show(fresh, now),
            Details::ActivateAction(ref text) => match AltTabAction::from_str(text.as_str()) {
                Ok(action) => self.perform_at(action, fresh, now),
                Err(_) => Vec::new(),
            },
            Details::Open => Vec::new(),
        };
        assert((self@, effects@) == before.dbus_activation(details, fresh, now));
        effects
    }

    /// Reacts to an activation from outside if the switcher can take it now, and
    /// otherwise stays as it is.
    pub fn try_dbus_activation(&mut self, details: Details, fresh: u64) -> (effects: Option<
        Vec<Effect>,
    >)
        ensures
            match effects {
                Some(list) => {
                    &&& old(self)@.accepts_activation(details)
                    &&& exists|now: u64|
                        old(self)@.clock.shows(now) && (final(self)@, list@) == #[trigger] old(
                            self,
                        )@.dbus_activation(details, fresh, now)
                },
                None => {
                    &&& !old(self)@.accepts_activation(details)
                    &&& final(self)@ == old(self)@
                },
            },
            old(self)@.consistent() ==> final(self)@.consistent(),
    {
        if let Details::ActivateAction(ref text) = details {
            if let Ok(AltTabAction::AltTab) = AltTabAction::from_str(text.as_str()) {
                if !self.accepts(&Msg::Next) {
                    return None;
                }
            }
        }
        Some(self.dbus_activation(details, fresh))
    }

    /// Starts the switcher and its clock. Started with an action, it shows itself
    /// at once, on a surface that goes by the number `fresh`, and takes the step of
    /// the action as the windows come in.
    pub fn init(flags: Args, fresh: u64) -> (started: (App, Vec<Effect>))
        ensures
            exists|now: u64|
                started.0@.clock.shows(now) && (started.0@, started.1@)
                    == #[trigger] AppView::launched(
                    started.0@.clock,
                    flags.subcommand,
                    fresh,
                    now,
                ),
            started.0@.clock.started(),
            started.0@.consistent(),
    {
        let mut app = App {
            clock: Clock::start(),
            windows: Vec::new(),
            selected: 0,
            layer_surface: None,
            connected: false,
            alt_was_held: true,
            visible: false,
            fade_phase: FadePhase::Idle,
            fade_start: None,
            pending_close: None,
            pending_action: None,
            cancelled: false,
        };
        assert(app@.windows =~= AppView::initial(app.clock).windows);
        let now: u64 = app.clock.nanos();
        let effects = match flags.action() {
            Some(action) => {
                let effects = app.show(fresh, now);
                app.pending_action = Some(*action);
                effects
            },
            None => Vec::new(),
        };
        assert((app@, effects@) == AppView::launched(app@.clock, flags.subcommand, fresh, now));
        (app, effects)
    }

    /// The opacity of the overlay at a moment on the switcher's clock, in parts of
    /// [`FADE_DURATION_MS`].
    pub fn fade_alpha_at(&self, now: u64) -> (alpha: u64)
        ensures
            alpha == self@.fade_alpha(now),
    {
        let elapsed: u64 = match self.fade_start {
            Some(start) => now.saturating_sub(start) / NANOS_PER_MS,
            None => 0,
        };
        let faded: u64 = if elapsed < FADE_DURATION_MS {
            elapsed
        } else {
            FADE_DURATION_MS
        };
        match self.fade_phase {
            FadePhase::Idle => 0,
            FadePhase::Open => FADE_DURATION_MS,
            FadePhase::FadingIn => faded,
            FadePhase::FadingOut => FADE_DURATION_MS - faded,
        }
    }

    /// The opacity of the overlay at the moment that the clock shows, in parts of
    /// [`FADE_DURATION_MS`].
    pub fn fade_alpha(&self) -> (alpha: u64)
        ensures
            exists|now: u64|
                self@.clock.shows(now) && alpha == #[trigger] self@.fade_alpha(now),
    {
        let now: u64 = self.clock.nanos();
        self.fade_alpha_at(now)
    }

    /// Whether the cards can be laid out now.
    pub fn lays_out(&self) -> (fits: bool)
        ensures
            fits == self@.can_lay_out(),
    {
        let mut i: usize = 0;
        while i < self.windows.len()
            invariant
                i <= self.windows.len(),
                forall|j: usize| j < i ==> #[trigger] comparable(j, self.selected),
            decreases self.windows.len() - i,
        {
            if !distance_fits(i, self.selected) {
                assert(!comparable(i, self@.selected as usize));
                return false;
            }
            i += 1;
        }
        true
    }

    /// What the overlay shows at the moment that the clock shows.
    pub fn view_window(&self) -> (overlay: Overlay)
        requires
            self@.can_lay_out(),
        ensures
            match overlay {
                Overlay::NoWindows => self@.windows.len() == 0,
                Overlay::Strip { alpha, margins, cards } => {
                    &&& self@.windows.len() > 0
                    &&& exists|now: u64|
                        self@.clock.shows(now) && alpha == #[trigger] self@.fade_alpha(now)
                    &&& card_views(cards@) == cards_of(
                        self@.windows,
                        self@.selected,
                        alpha as int,
                    )
                    &&& margins == margins_of(card_views(cards@), self@.selected)
                    &&& self@.selected < self@.windows.len() ==> is_centered(
                        card_views(cards@),
                        margins,
                        self@.selected as int,
                    )
                },
            },
    {
        let alpha: u64 = self.fade_alpha();
        assert(self@.windows.len() == self.windows@.len());
        assert(self@.selected as usize == self.selected);
        let cards = layout_cards(&self.windows, self.selected, alpha);
        if cards.is_empty() {
            assert(card_views(cards@).len() == 0);
            return Overlay::NoWindows;
        }
        assert(card_views(cards@).len() > 0);
        let margins = center(&cards, self.selected);
        Overlay::Strip { alpha, margins, cards }
    }

    /// What the switcher listens to.
    pub fn subscription(&self) -> (sources: Vec<Subscription>)
        ensures
            sources@ == self@.subscription(),
    {
        let mut sources: Vec<Subscription> = Vec::new();
        match self.fade_phase {
            FadePhase::FadingIn | FadePhase::FadingOut => sources.push(Subscription::FadeTick),
            _ => {},
        }
        sources.push(Subscription::Keyboard);
        sources.push(Subscription::Backend);
        assert(sources@ =~= self@.subscription());
        sources
    }

    /// The windows, in the order of the strip.
    pub fn windows(&self) -> (windows: &Vec<Window>)
        ensures
            window_views(windows@) == self@.windows,
    {
        &self.windows
    }

    /// The index of the selected window.
    pub fn selected(&self) -> (selected: usize)
        ensures
            selected == self@.selected,
    {
        self.selected
    }

    /// Whether the overlay is up, fades included.
    pub fn visible(&self) -> (visible: bool)
        ensures
            visible == self@.visible,
    {
        self.visible
    }

    /// Where the overlay is in its fade.
    pub fn fade_phase(&self) -> (phase: FadePhase)
        ensures
            phase == self@.fade_phase,
    {
        self.fade_phase
    }
}

} // verus!
