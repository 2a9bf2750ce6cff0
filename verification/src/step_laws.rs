//! What each message and each activation does to the switcher, and what it leaves
//! alone.

#[allow(unused_imports)]
use crate::app::{millis_between, AppView, FadePhase, Subscription};
#[allow(unused_imports)]
use crate::args::{action_of, AltTabAction};
#[allow(unused_imports)]
use crate::carousel::{cards_of, comparable, law_steps_are_the_distance, Preview};
#[allow(unused_imports)]
use crate::clock::Clock;
#[allow(unused_imports)]
use crate::input::{message_for, InputEvent, Key, Modifiers};
#[allow(unused_imports)]
use crate::message::{Cmd, Details, Effect, Event, Msg, ToplevelInfo};
#[allow(unused_imports)]
use crate::window::{
    lemma_replace_first_absent, lemma_replace_first_at, ThumbnailView, WindowView,
};
use vstd::prelude::*;

verus! {

/// Tab and the right arrow lead to the next window, and from the last to the first.
/// Tab with Shift and the left arrow lead to the previous one, and from the first to
/// the last. Alt and the logo key play no part, nothing else changes, but that no
/// action waits any more, and nothing is to be done.
pub proof fn law_keys_move_the_selection(
    app: AppView,
    shift: bool,
    alt: bool,
    logo: bool,
    fresh: u64,
    now: u64,
)
    requires
        app.selected < app.windows.len(),
    ensures
        ({
            let count = app.windows.len();
            let forward = AppView {
                selected: if app.selected + 1 == count {
                    0
                } else {
                    app.selected + 1
                },
                pending_action: None,
                ..app
            };
            let back = AppView {
                selected: if app.selected == 0 {
                    (count - 1) as nat
                } else {
                    (app.selected - 1) as nat
                },
                pending_action: None,
                ..app
            };
            let modifiers = Modifiers { shift, alt, logo };
            let tab = message_for(InputEvent::KeyPressed { key: Key::Tab, modifiers });
            let right = message_for(InputEvent::KeyPressed { key: Key::ArrowRight, modifiers });
            let left = message_for(InputEvent::KeyPressed { key: Key::ArrowLeft, modifiers });
            &&& tab is Some && right is Some && left is Some
            &&& !shift ==> app.update(tab->0, fresh, now) == (forward, Seq::<Effect>::empty())
            &&& shift ==> app.update(tab->0, fresh, now) == (back, Seq::<Effect>::empty())
            &&& app.update(right->0, fresh, now) == (forward, Seq::<Effect>::empty())
            &&& app.update(left->0, fresh, now) == (back, Seq::<Effect>::empty())
        }),
{
    let count = app.windows.len();
    if app.selected + 1 < count {
        vstd::arithmetic::div_mod::lemma_small_mod(app.selected + 1, count);
    } else {
        vstd::arithmetic::div_mod::lemma_mod_self_0(count as int);
    }
}

/// Wherever the selection is, going forward leads among the windows, as many places
/// on as one and whole rounds, and going back one place back, from the first to the
/// last. Without windows neither changes anything.
pub proof fn law_moves_from_anywhere(app: AppView, fresh: u64, now: u64)
    ensures
        ({
            let (next, next_effects) = app.update(Msg::Next, fresh, now);
            let (prev, prev_effects) = app.update(Msg::Prev, fresh, now);
            let count = app.windows.len() as int;
            &&& next_effects == Seq::<Effect>::empty()
            &&& prev_effects == Seq::<Effect>::empty()
            &&& count == 0 ==> next == app && prev == app
            &&& count > 0 ==> {
                &&& next == (AppView { selected: next.selected, pending_action: None, ..app })
                &&& prev == (AppView { selected: prev.selected, pending_action: None, ..app })
                &&& next.selected < count
                &&& (app.selected + 1 - next.selected) % count == 0
                &&& app.selected == 0 ==> prev.selected == count - 1
                &&& app.selected > 0 ==> prev.selected + 1 == app.selected
            }
        }),
{
    if app.windows.len() > 0 {
        let count = app.windows.len() as int;
        let place = app.selected as int + 1;
        vstd::arithmetic::div_mod::lemma_mod_bound(place, count);
        vstd::arithmetic::div_mod::lemma_fundamental_div_mod(place, count);
        vstd::arithmetic::div_mod::lemma_mod_multiples_basic(place / count, count);
        assert(count * (place / count) == (place / count) * count) by (nonlinear_arith);
    }
}

/// Showing the overlay while it is up changes nothing.
pub proof fn law_showing_what_is_shown_changes_nothing(app: AppView, fresh: u64, now: u64)
    requires
        app.visible,
    ensures
        app.update(Msg::Show, fresh, now) == (app, Seq::<Effect>::empty()),
{
}

/// Showing the overlay starts its fade-in at that moment, on the new surface, with Alt
/// counted as held. The windows and the selection stay. Without a way to send
/// commands only the surface is created.
pub proof fn law_showing_starts_a_fade_in(app: AppView, fresh: u64, now: u64)
    requires
        !app.visible,
    ensures
        app.update(Msg::Show, fresh, now).0 == (AppView {
            visible: true,
            alt_was_held: true,
            fade_phase: FadePhase::FadingIn,
            fade_start: Some(now),
            layer_surface: Some(fresh),
            ..app
        }),
        !app.connected ==> app.update(Msg::Show, fresh, now).1 == seq![
            Effect::GetLayerSurface(fresh),
        ],
        app.connected ==> {
            let effects = app.update(Msg::Show, fresh, now).1;
            &&& effects.len() == app.windows.len() + 1
            &&& effects.last() == Effect::GetLayerSurface(fresh)
            &&& forall|i: int|
                0 <= i < app.windows.len() ==> #[trigger] effects[i] == Effect::Send(
                    Cmd::CaptureToplevel(app.windows[i].handle),
                )
        },
{
    if !app.connected {
        assert(app.update(Msg::Show, fresh, now).1 =~= seq![Effect::GetLayerSurface(fresh)]);
    }
}

/// Hiding the overlay starts its fade-out at that moment, and remembers the surface to
/// destroy. The overlay stays up, and the windows and the selection stay. Hiding it
/// while it is down or fading out changes nothing.
pub proof fn law_hiding_starts_a_fade_out(app: AppView, fresh: u64, now: u64)
    ensures
        app.update(Msg::Hide, fresh, now).1 == Seq::<Effect>::empty(),
        app.visible && app.fade_phase != FadePhase::FadingOut ==> app.update(
            Msg::Hide,
            fresh,
            now,
        ).0 == (AppView {
            fade_phase: FadePhase::FadingOut,
            fade_start: Some(now),
            pending_close: app.layer_surface,
            pending_action: None,
            ..app
        }),
        !app.visible || app.fade_phase == FadePhase::FadingOut ==> app.update(
            Msg::Hide,
            fresh,
            now,
        ).0 == app,
{
}

/// Escape hides the overlay as [`Msg::Hide`] does, and cancels the switch if there is
/// an overlay to hide.
pub proof fn law_escape_hides_and_cancels(app: AppView, fresh: u64, now: u64)
    ensures
        app.update(Msg::Escape, fresh, now).1 == Seq::<Effect>::empty(),
        app.update(Msg::Escape, fresh, now).0 == (AppView {
            cancelled: app.visible,
            ..app.update(Msg::Hide, fresh, now).0
        }),
{
}

/// A tick within 250 milliseconds of the start of a fade changes nothing, and neither
/// does one while no fade is timed. A later one ends a fade-in with an open overlay,
/// and a fade-out with none, whose surface is destroyed. The windows and the
/// selection stay.
pub proof fn law_ticks_end_fades(app: AppView, fresh: u64, now: u64)
    ensures
        app.fade_start is None ==> app.update(Msg::FadeTick, fresh, now) == (
            app,
            Seq::<Effect>::empty(),
        ),
        app.fade_start matches Some(start) ==> {
            &&& now < start + 250_000_000 ==> app.update(Msg::FadeTick, fresh, now) == (
                app,
                Seq::<Effect>::empty(),
            )
            &&& now >= start + 250_000_000 && app.fade_phase == FadePhase::FadingIn
                ==> app.update(Msg::FadeTick, fresh, now) == (
                AppView { fade_phase: FadePhase::Open, fade_start: None, ..app },
                Seq::<Effect>::empty(),
            )
            &&& now >= start + 250_000_000 && app.fade_phase == FadePhase::FadingOut ==> {
                let (gone, effects) = app.update(Msg::FadeTick, fresh, now);
                &&& gone == (AppView {
                    fade_phase: FadePhase::Idle,
                    fade_start: None,
                    visible: false,
                    layer_surface: None,
                    pending_close: None,
                    cancelled: false,
                    ..app
                })
                &&& app.pending_close is None ==> effects == Seq::<Effect>::empty()
                &&& app.pending_close matches Some(id) ==> effects == seq![
                    Effect::DestroyLayerSurface(id),
                ]
            }
        },
        app.fade_phase == FadePhase::Idle || app.fade_phase == FadePhase::Open ==> app.update(
            Msg::FadeTick,
            fresh,
            now,
        ) == (app, Seq::<Effect>::empty()),
{
}

/// Whole milliseconds are counted: as many as fit between two moments, and none if the
/// second is the earlier.
pub proof fn law_milliseconds_are_whole(start: u64, now: u64)
    ensures
        now >= start ==> 1_000_000 * millis_between(start, now) <= now - start < 1_000_000 * (
        millis_between(start, now) + 1),
        now < start ==> millis_between(start, now) == 0,
{
}

/// In a fade-in the opacity gains one part of 250 per millisecond, and in a fade-out
/// it is as far from full as in a fade-in of the same start it is from none.
pub proof fn law_opacity_counts_milliseconds(app: AppView, start: u64, now: u64, elapsed: int)
    requires
        app.fade_start == Some(start),
        elapsed >= 0,
        now >= start ==> 1_000_000 * elapsed <= now - start < 1_000_000 * (elapsed + 1),
        now < start ==> elapsed == 0,
    ensures
        app.fade_phase == FadePhase::FadingIn && elapsed <= 250 ==> app.fade_alpha(now) == elapsed,
        app.fade_phase == FadePhase::FadingIn && elapsed >= 250 ==> app.fade_alpha(now) == 250,
        ({
            let rising = AppView { fade_phase: FadePhase::FadingIn, ..app };
            let falling = AppView { fade_phase: FadePhase::FadingOut, ..app };
            falling.fade_alpha(now) + rising.fade_alpha(now) == 250
        }),
{
}

/// The opacity is none while the overlay is down and full while it is open. A fade
/// that is not timed stays at its beginning.
pub proof fn law_opacity_rests(app: AppView, now: u64)
    ensures
        app.fade_start is None && app.fade_phase == FadePhase::FadingIn ==> app.fade_alpha(now)
            == 0,
        app.fade_start is None && app.fade_phase == FadePhase::FadingOut ==> app.fade_alpha(now)
            == 250,
        app.fade_phase == FadePhase::Idle ==> app.fade_alpha(now) == 0,
        app.fade_phase == FadePhase::Open ==> app.fade_alpha(now) == 250,
{
}

/// Letting go of Alt while the overlay is up activates the selected window, that very
/// window and once, and starts the fade-out if none is running. Without a way to send
/// commands, or with a selection beyond the windows, nothing is sent. The windows and
/// the selection stay.
pub proof fn law_release_activates_the_selected_window(app: AppView, fresh: u64, now: u64)
    requires
        app.visible,
        app.alt_was_held,
        !app.cancelled,
    ensures
        ({
            let (closing, effects) = app.update(Msg::ModifiersChanged(false), fresh, now);
            &&& app.connected && app.selected < app.windows.len() ==> effects == seq![
                Effect::Send(Cmd::ActivateToplevel(app.windows[app.selected as int].handle)),
            ]
            &&& !app.connected || app.selected >= app.windows.len() ==> effects == Seq::<
                Effect,
            >::empty()
            &&& closing == app.update(Msg::Hide, fresh, now).0
        }),
{
}

/// Any other change of the modifiers sends nothing. It is remembered whether Alt is
/// held, but for a release after Escape, which changes nothing.
pub proof fn law_other_modifiers_send_nothing(app: AppView, fresh: u64, now: u64)
    ensures
        app.update(Msg::ModifiersChanged(true), fresh, now) == (
            AppView { alt_was_held: true, ..app },
            Seq::<Effect>::empty(),
        ),
        app.cancelled ==> app.update(Msg::ModifiersChanged(false), fresh, now) == (
            app,
            Seq::<Effect>::empty(),
        ),
        !app.cancelled && (!app.visible || !app.alt_was_held) ==> app.update(
            Msg::ModifiersChanged(false),
            fresh,
            now,
        ) == (AppView { alt_was_held: false, ..app }, Seq::<Effect>::empty()),
{
}

/// A click selects its window and activates it, that very window and once, whatever
/// was selected before, and hides the overlay. It is no cancelled switch any more.
/// Without a way to send commands, or beside the windows, nothing is sent.
pub proof fn law_clicks_activate_their_window(app: AppView, index: usize, fresh: u64, now: u64)
    ensures
        ({
            let (clicked, effects) = app.update(Msg::Activate(index), fresh, now);
            &&& app.connected && index < app.windows.len() ==> effects == seq![
                Effect::Send(Cmd::ActivateToplevel(app.windows[index as int].handle)),
            ]
            &&& !app.connected || index >= app.windows.len() ==> effects == Seq::<
                Effect,
            >::empty()
            &&& clicked == (AppView {
                selected: index as nat,
                cancelled: false,
                ..app.update(Msg::Hide, fresh, now).0
            })
        }),
{
}

/// A notice of the toolkit changes nothing.
pub proof fn law_notices_change_nothing(app: AppView, fresh: u64, now: u64)
    ensures
        app.update(Msg::Surface, fresh, now) == (app, Seq::<Effect>::empty()),
{
}

/// The reports of the compositor's side ask for nothing to be done, and change the
/// windows, the selection and whether commands can be sent, nothing else.
pub proof fn law_reports_leave_the_overlay_alone(
    app: AppView,
    event: Event,
    fresh: u64,
    now: u64,
)
    ensures
        ({
            let (after, effects) = app.update(Msg::Backend(event), fresh, now);
            &&& effects == Seq::<Effect>::empty()
            &&& after == (AppView {
                windows: after.windows,
                selected: after.selected,
                connected: after.connected,
                ..app
            })
            &&& event is CmdSender ==> after == (AppView { connected: true, ..app })
            &&& !(event is CmdSender) ==> after.connected == app.connected
            &&& event is ToplevelCapture || event is UpdateToplevel ==> after.selected
                == app.selected
        }),
{
}

/// A new window goes to the end of the list, as it is known and without a screenshot.
/// If no action waits, the selection stays, but leaves the first window as soon as
/// there is a second. A forward action that waits selects the second window, or the
/// first if it is alone, and a backward one the new window.
pub proof fn law_new_windows_go_to_the_end(
    app: AppView,
    handle: u64,
    info: ToplevelInfo,
    fresh: u64,
    now: u64,
)
    ensures
        ({
            let after = app.update(Msg::Backend(Event::NewToplevel(handle, info)), fresh, now).0;
            let known = app.windows.len();
            &&& after.windows == app.windows.push(
                WindowView { handle, info: info@, thumbnail: None },
            )
            &&& app.pending_action is None && (app.selected != 0 || known == 0) ==> after.selected
                == app.selected
            &&& app.pending_action is None && app.selected == 0 && known > 0 ==> after.selected == 1
            &&& app.pending_action == Some(AltTabAction::AltTab) && known == 0 ==> after.selected
                == 0
            &&& app.pending_action == Some(AltTabAction::AltTab) && known > 0 ==> after.selected
                == 1
            &&& app.pending_action == Some(AltTabAction::ShiftAltTab) ==> after.selected == known
        }),
{
}

/// Closing a window takes the windows with its handle out of the list, and leaves the
/// others as they are and in their order. The selection stays where it is as long as
/// it is among the windows that are left, and otherwise goes to the last of them. If
/// none is left, it stays.
pub proof fn law_closing_keeps_the_selection(app: AppView, handle: u64, fresh: u64, now: u64)
    ensures
        ({
            let after = app.update(Msg::Backend(Event::CloseToplevel(handle)), fresh, now).0;
            let left = app.windows.filter(|window: WindowView| window.handle != handle);
            &&& after.windows == left
            &&& app.selected < left.len() ==> after.selected == app.selected
            &&& app.selected >= left.len() && left.len() > 0 ==> after.selected == left.len() - 1
            &&& left.len() == 0 ==> after.selected == app.selected
        }),
{
}

/// When no window up to the selected one closes, the same window stays selected, and
/// letting go of Alt switches to it.
pub proof fn law_later_windows_close_behind_the_selection(
    app: AppView,
    handle: u64,
    fresh: u64,
    now: u64,
)
    requires
        app.selected < app.windows.len(),
        forall|i: int|
            0 <= i <= app.selected ==> (#[trigger] app.windows[i]).handle != handle,
    ensures
        ({
            let after = app.update(Msg::Backend(Event::CloseToplevel(handle)), fresh, now).0;
            &&& after.selected == app.selected
            &&& after.selected < after.windows.len()
            &&& after.windows[after.selected as int] == app.windows[app.selected as int]
            &&& after.update(Msg::ModifiersChanged(false), fresh, now).1 == app.update(
                Msg::ModifiersChanged(false),
                fresh,
                now,
            ).1
        }),
{
    lemma_filter_keeps_the_beginning(
        app.windows,
        |window: WindowView| window.handle != handle,
        app.selected as int + 1,
    );
}

/// A filter that keeps the first elements leaves them where they are.
proof fn lemma_filter_keeps_the_beginning<A>(list: Seq<A>, keep: spec_fn(A) -> bool, count: int)
    requires
        0 <= count <= list.len(),
        forall|i: int| 0 <= i < count ==> keep(#[trigger] list[i]),
    ensures
        count <= list.filter(keep).len() <= list.len(),
        forall|i: int| 0 <= i < count ==> #[trigger] list.filter(keep)[i] == list[i],
    decreases list.len(),
{
    reveal(Seq::filter);
    if list.len() > 0 {
        let rest = list.drop_last();
        if count == list.len() {
            lemma_filter_keeps_the_beginning(rest, keep, count - 1);
            assert(keep(list[count - 1]));
        } else {
            lemma_filter_keeps_the_beginning(rest, keep, count);
        }
    }
}

/// A captured frame becomes the screenshot of the first window with its handle, and a
/// report that a window has changed becomes what is known of it. Nothing else changes.
pub proof fn law_reports_reach_the_first_window(
    app: AppView,
    event: Event,
    i: int,
    fresh: u64,
    now: u64,
)
    requires
        0 <= i < app.windows.len(),
        event matches Event::ToplevelCapture(handle, _, _, _) ==> app.windows[i].handle == handle
            && forall|j: int| 0 <= j < i ==> (#[trigger] app.windows[j]).handle != handle,
        event matches Event::UpdateToplevel(handle, _) ==> app.windows[i].handle == handle
            && forall|j: int| 0 <= j < i ==> (#[trigger] app.windows[j]).handle != handle,
    ensures
        event matches Event::ToplevelCapture(_, pixels, width, height) ==> app.update(
            Msg::Backend(event),
            fresh,
            now,
        ).0 == (AppView {
            windows: app.windows.update(
                i,
                WindowView {
                    thumbnail: Some(ThumbnailView { width, height, pixels: pixels@ }),
                    ..app.windows[i]
                },
            ),
            ..app
        }),
        event matches Event::UpdateToplevel(_, info) ==> app.update(
            Msg::Backend(event),
            fresh,
            now,
        ).0 == (AppView {
            windows: app.windows.update(i, WindowView { info: info@, ..app.windows[i] }),
            ..app
        }),
{
    match event {
        Event::ToplevelCapture(handle, pixels, width, height) => {
            lemma_replace_first_at(
                app.windows,
                handle,
                |window: WindowView|
                    WindowView {
                        thumbnail: Some(ThumbnailView { width, height, pixels: pixels@ }),
                        ..window
                    },
                i,
            );
        },
        Event::UpdateToplevel(handle, info) => {
            lemma_replace_first_at(
                app.windows,
                handle,
                |window: WindowView| WindowView { info: info@, ..window },
                i,
            );
        },
        _ => {},
    }
}

/// A captured frame of a window that is not in the list changes nothing, and neither
/// does a report that such a window has changed.
pub proof fn law_reports_of_unknown_windows_change_nothing(
    app: AppView,
    event: Event,
    fresh: u64,
    now: u64,
)
    requires
        event is ToplevelCapture || event is UpdateToplevel,
        event matches Event::ToplevelCapture(handle, _, _, _) ==> (forall|j: int|
            0 <= j < app.windows.len() ==> (#[trigger] app.windows[j]).handle != handle),
        event matches Event::UpdateToplevel(handle, _) ==> (forall|j: int|
            0 <= j < app.windows.len() ==> (#[trigger] app.windows[j]).handle != handle),
    ensures
        app.update(Msg::Backend(event), fresh, now) == (app, Seq::<Effect>::empty()),
{
    match event {
        Event::ToplevelCapture(handle, pixels, width, height) => {
            lemma_replace_first_absent(
                app.windows,
                handle,
                |window: WindowView|
                    WindowView {
                        thumbnail: Some(ThumbnailView { width, height, pixels: pixels@ }),
                        ..window
                    },
            );
        },
        Event::UpdateToplevel(handle, info) => {
            lemma_replace_first_absent(
                app.windows,
                handle,
                |window: WindowView| WindowView { info: info@, ..window },
            );
        },
        _ => {},
    }
}

/// Once a frame of a window has been captured its card shows the screenshot, be it the
/// selected one or not.
pub proof fn law_captured_windows_show_their_screenshot(
    app: AppView,
    event: Event,
    i: int,
    alpha: int,
    fresh: u64,
    now: u64,
)
    requires
        0 <= i < app.windows.len(),
        event matches Event::ToplevelCapture(handle, _, _, _) && app.windows[i].handle == handle
            && forall|j: int| 0 <= j < i ==> (#[trigger] app.windows[j]).handle != handle,
    ensures
        ({
            let after = app.update(Msg::Backend(event), fresh, now).0;
            cards_of(after.windows, after.selected, alpha)[i].preview == Preview::Screenshot
        }),
{
    law_reports_reach_the_first_window(app, event, i, fresh, now);
}

/// Only reports change what is known of the windows.
pub proof fn law_other_messages_keep_the_windows(
    app: AppView,
    message: Msg,
    details: Details,
    fresh: u64,
    now: u64,
)
    ensures
        !(message is Backend) ==> app.update(message, fresh, now).0.windows == app.windows,
        app.dbus_activation(details, fresh, now).0.windows == app.windows,
        !(message is Backend) && !(message is Next) && !(message is Prev) && !(message is Activate)
            ==> app.update(message, fresh, now).0.selected == app.selected,
        app.update(message, fresh, now).0.clock == app.clock,
        app.dbus_activation(details, fresh, now).0.clock == app.clock,
{
}

/// An action shows the overlay and then moves the selection, forward or back as it
/// says, and asks for a switch that nothing has cancelled.
pub proof fn law_actions_show_and_move(app: AppView, fresh: u64, now: u64)
    ensures
        ({
            let (shown, effects) = app.update(Msg::Show, fresh, now);
            let next = shown.update(Msg::Next, fresh, now).0;
            let prev = shown.update(Msg::Prev, fresh, now).0;
            &&& app.perform(AltTabAction::AltTab, fresh, now) == (
                AppView { cancelled: false, ..next },
                effects,
            )
            &&& app.perform(AltTabAction::ShiftAltTab, fresh, now) == (
                AppView { cancelled: false, ..prev },
                effects,
            )
        }),
{
}

/// Being activated shows the overlay. Being activated with an action carries out the
/// action, and with a text that spells none, or with something to open, does nothing.
pub proof fn law_activations_do_what_they_say(
    app: AppView,
    text: String,
    fresh: u64,
    now: u64,
)
    ensures
        app.dbus_activation(Details::Activate, fresh, now) == app.update(Msg::Show, fresh, now),
        app.dbus_activation(Details::Open, fresh, now) == (app, Seq::<Effect>::empty()),
        action_of(text@) is None ==> app.dbus_activation(
            Details::ActivateAction(text),
            fresh,
            now,
        ) == (app, Seq::<Effect>::empty()),
        action_of(text@) matches Some(action) ==> app.dbus_activation(
            Details::ActivateAction(text),
            fresh,
            now,
        ) == app.perform(action, fresh, now),
{
}

/// Launched without an action the switcher waits, with nothing to do. Launched with
/// one it shows the overlay at once, on the new surface, and the action waits.
pub proof fn law_launches_show_only_with_an_action(
    clock: Clock,
    action: AltTabAction,
    fresh: u64,
    now: u64,
)
    ensures
        ({
            let hidden = AppView {
                clock,
                windows: Seq::empty(),
                selected: 0,
                layer_surface: None,
                connected: false,
                alt_was_held: true,
                visible: false,
                fade_phase: FadePhase::Idle,
                fade_start: None,
                pending_close: None,
                pending_action: None,
                cancelled: false,
            };
            &&& AppView::launched(clock, None, fresh, now) == (hidden, Seq::<Effect>::empty())
            &&& AppView::launched(clock, Some(action), fresh, now) == (
                AppView {
                    visible: true,
                    layer_surface: Some(fresh),
                    fade_phase: FadePhase::FadingIn,
                    fade_start: Some(now),
                    pending_action: Some(action),
                    ..hidden
                },
                seq![Effect::GetLayerSurface(fresh)],
            )
        }),
{
    assert(AppView::launched(clock, Some(action), fresh, now).1 =~= seq![
        Effect::GetLayerSurface(fresh),
    ]);
}

/// What a consistent state is: a surface is there exactly while the overlay is up, a
/// fade is timed exactly while one is running, the surface to destroy is the one that
/// is up, Alt counts as held while the overlay is up, an action waits only on an
/// overlay that comes up or is open, and only a fade-out can be cancelled.
pub proof fn law_consistent_states_hang_together(app: AppView)
    requires
        app.consistent(),
    ensures
        app.visible <==> app.layer_surface is Some,
        app.visible <==> app.fade_phase != FadePhase::Idle,
        app.fade_start is Some <==> app.fade_phase == FadePhase::FadingIn || app.fade_phase
            == FadePhase::FadingOut,
        app.fade_phase == FadePhase::FadingOut ==> app.pending_close == app.layer_surface,
        app.fade_phase != FadePhase::FadingOut ==> app.pending_close is None,
        app.visible ==> app.alt_was_held,
        app.pending_action is Some ==> app.visible && app.fade_phase != FadePhase::FadingOut,
        app.cancelled ==> app.fade_phase == FadePhase::FadingOut,
{
}

/// The keyboard and the compositor's side are always listened to, ticks exactly while
/// the overlay fades, and nothing twice.
pub proof fn law_sources_are_listened_to_once(app: AppView)
    ensures
        ({
            let sources = app.subscription();
            let fading = app.fade_phase == FadePhase::FadingIn || app.fade_phase
                == FadePhase::FadingOut;
            &&& sources.contains(Subscription::Keyboard)
            &&& sources.contains(Subscription::Backend)
            &&& sources.contains(Subscription::FadeTick) <==> fading
            &&& sources.no_duplicates()
            &&& sources.len() == (if fading {
                3int
            } else {
                2
            })
        }),
{
    let sources = app.subscription();
    if app.fade_phase == FadePhase::FadingIn || app.fade_phase == FadePhase::FadingOut {
        assert(sources =~= seq![
            Subscription::FadeTick,
            Subscription::Keyboard,
            Subscription::Backend,
        ]);
        assert(sources[0] == Subscription::FadeTick);
        assert(sources[1] == Subscription::Keyboard);
        assert(sources[2] == Subscription::Backend);
    } else {
        assert(sources =~= seq![Subscription::Keyboard, Subscription::Backend]);
        assert(sources[0] == Subscription::Keyboard);
        assert(sources[1] == Subscription::Backend);
    }
}

/// Every message can be taken but one: going forward from the last place that the
/// machine can count, if there are windows. The same holds of activations, by the
/// action that they carry.
pub proof fn law_only_going_forward_can_be_refused(app: AppView, message: Msg, text: String)
    ensures
        message != Msg::Next ==> app.accepts(message),
        app.windows.len() == 0 || app.selected < usize::MAX ==> app.accepts(message),
        app.windows.len() > 0 && app.selected >= usize::MAX ==> !app.accepts(Msg::Next),
        app.accepts_activation(Details::Activate),
        app.accepts_activation(Details::Open),
        action_of(text@) != Some(AltTabAction::AltTab) ==> app.accepts_activation(
            Details::ActivateAction(text),
        ),
        action_of(text@) == Some(AltTabAction::AltTab) ==> (app.accepts_activation(
            Details::ActivateAction(text),
        ) <==> app.accepts(Msg::Next)),
{
}

/// The cards can be laid out exactly if the distance of each from the selection can be
/// taken.
pub proof fn law_layouts_need_every_distance(app: AppView, i: usize)
    requires
        i < app.windows.len(),
    ensures
        app.can_lay_out() ==> comparable(i, app.selected as usize),
        !app.can_lay_out() ==> exists|j: usize|
            j < app.windows.len() && !#[trigger] comparable(j, app.selected as usize),
{
}

/// The cards can be laid out whenever the windows and the selection can be counted
/// with 32-bit integers, and always if there are no windows.
pub proof fn law_cards_can_be_laid_out(app: AppView)
    requires
        app.windows.len() == 0 || app.windows.len() <= 0x7fff_ffff && app.selected <= 0x7fff_ffff,
    ensures
        app.can_lay_out(),
{
    assert forall|i: usize| i < app.windows.len() implies #[trigger] comparable(
        i,
        app.selected as usize,
    ) by {
        law_steps_are_the_distance(i, app.selected as usize);
    }
}

} // verus!
