//! What holds of the switcher as a whole.

#[allow(unused_imports)]
use crate::app::{
    capture_requests, first_step, millis_between, AppView, FadePhase, Subscription,
    FADE_DURATION_MS,
};
#[allow(unused_imports)]
use crate::args::{action_of, AltTabAction};
#[allow(unused_imports)]
use crate::clock::Clock;
#[allow(unused_imports)]
use crate::input::{message_for, InputEvent, Key, Modifiers};
#[allow(unused_imports)]
use crate::message::{Cmd, Details, Effect, Event, Msg};
#[allow(unused_imports)]
use crate::window::{
    first_with_handle, has_handle, lemma_replace_first_at, replace_first, without_handle,
    ThumbnailView, WindowView,
};
use vstd::prelude::*;

verus! {

/// The switcher starts out consistent, launched with an action or without.
pub proof fn law_starts_consistent(
    clock: Clock,
    action: Option<AltTabAction>,
    fresh: u64,
    now: u64,
)
    ensures
        AppView::launched(clock, action, fresh, now).0.consistent(),
{
}

/// Every message keeps the switcher consistent.
pub proof fn law_messages_keep_consistent(app: AppView, message: Msg, fresh: u64, now: u64)
    requires
        app.consistent(),
    ensures
        app.update(message, fresh, now).0.consistent(),
{
}

/// Every activation from outside keeps the switcher consistent.
pub proof fn law_activations_keep_consistent(app: AppView, details: Details, fresh: u64, now: u64)
    requires
        app.consistent(),
    ensures
        app.dbus_activation(details, fresh, now).0.consistent(),
{
}

/// The surface that is up after some effects, given the one that is up before
/// them. Nothing comes out if a surface is created while one is up, or if one is
/// destroyed that is not up.
pub open spec fn surface_after(up: Option<u64>, effects: Seq<Effect>) -> Option<Option<u64>>
    decreases effects.len(),
{
    if effects.len() == 0 {
        Some(up)
    } else {
        match surface_after(up, effects.drop_last()) {
            Some(before) => match effects.last() {
                Effect::Send(_) => Some(before),
                Effect::GetLayerSurface(id) => if before is None {
                    Some(Some(id))
                } else {
                    None
                },
                Effect::DestroyLayerSurface(id) => if before == Some(id) {
                    Some(None)
                } else {
                    None
                },
            },
            None => None,
        }
    }
}

/// What reaches the switcher.
pub enum Input {
    Message(Msg),
    Activation(Details),
}

/// What reaches the switcher, the number for a new surface, and the moment.
pub struct Step {
    pub input: Input,
    pub fresh: u64,
    pub now: u64,
}

/// What a step changes and what is to be done.
pub open spec fn react(app: AppView, step: Step) -> (AppView, Seq<Effect>) {
    match step.input {
        Input::Message(message) => app.update(message, step.fresh, step.now),
        Input::Activation(details) => app.dbus_activation(details, step.fresh, step.now),
    }
}

/// The state after some steps, and all effects on the way.
pub open spec fn run(app: AppView, steps: Seq<Step>) -> (AppView, Seq<Effect>)
    decreases steps.len(),
{
    if steps.len() == 0 {
        (app, Seq::empty())
    } else {
        let (before, effects) = run(app, steps.drop_last());
        let (after, more) = react(before, steps.last());
        (after, effects + more)
    }
}

proof fn lemma_surface_after_add(up: Option<u64>, first: Seq<Effect>, second: Seq<Effect>)
    requires
        surface_after(up, first) is Some,
    ensures
        surface_after(up, first + second) == surface_after(surface_after(up, first)->0, second),
    decreases second.len(),
{
    if second.len() == 0 {
        assert(first + second =~= first);
    } else {
        assert((first + second).drop_last() =~= first + second.drop_last());
        assert((first + second).last() == second.last());
        lemma_surface_after_add(up, first, second.drop_last());
    }
}

proof fn lemma_surface_after_sends(up: Option<u64>, effects: Seq<Effect>)
    requires
        forall|i: int| 0 <= i < effects.len() ==> (#[trigger] effects[i]) is Send,
    ensures
        surface_after(up, effects) == Some(up),
    decreases effects.len(),
{
    if effects.len() > 0 {
        assert(effects.last() == effects[effects.len() - 1]);
        assert forall|i: int| 0 <= i < effects.drop_last().len() implies (
        #[trigger] effects.drop_last()[i]) is Send by {
            assert(effects.drop_last()[i] == effects[i]);
        }
        lemma_surface_after_sends(up, effects.drop_last());
    }
}

proof fn lemma_show_opens(app: AppView, fresh: u64, now: u64)
    requires
        app.consistent(),
    ensures
        surface_after(app.layer_surface, app.show(fresh, now).1) == Some(
            app.show(fresh, now).0.layer_surface,
        ),
{
    let effects = app.show(fresh, now).1;
    if !app.visible {
        assert(effects.last() == Effect::GetLayerSurface(fresh));
        let sends = effects.drop_last();
        if app.connected {
            assert(sends =~= capture_requests(app.windows));
        } else {
            assert(sends =~= Seq::empty());
        }
        lemma_surface_after_sends(app.layer_surface, sends);
    }
}

/// A step creates a surface only when none is up, and destroys only the one that
/// is up.
pub proof fn law_step_keeps_one_surface(app: AppView, step: Step)
    requires
        app.consistent(),
    ensures
        surface_after(app.layer_surface, react(app, step).1) == Some(
            react(app, step).0.layer_surface,
        ),
{
    lemma_show_opens(app, step.fresh, step.now);
    let effects = react(app, step).1;
    if step.input is Message && !(step.input->Message_0 is Show) && effects.len() > 0 {
        assert(effects.len() == 1);
        assert(effects.drop_last() =~= Seq::empty());
        assert(effects.last() == effects[0]);
        assert(surface_after(app.layer_surface, effects.drop_last()) == Some(app.layer_surface));
    }
}

/// Whatever happens, surfaces are created and destroyed in turn: each one that is
/// created is destroyed before another is created, and the one that is not
/// destroyed in the end is the one that is up.
pub proof fn law_surfaces_come_and_go_in_turn(app: AppView, steps: Seq<Step>)
    requires
        app.consistent(),
    ensures
        run(app, steps).0.consistent(),
        surface_after(app.layer_surface, run(app, steps).1) == Some(
            run(app, steps).0.layer_surface,
        ),
    decreases steps.len(),
{
    if steps.len() > 0 {
        law_surfaces_come_and_go_in_turn(app, steps.drop_last());
        let (before, effects) = run(app, steps.drop_last());
        law_step_keeps_one_surface(before, steps.last());
        lemma_surface_after_add(app.layer_surface, effects, react(before, steps.last()).1);
    }
}

/// The handles of a list of windows, in their order.
pub open spec fn handles(windows: Seq<WindowView>) -> Seq<u64> {
    windows.map_values(|window: WindowView| window.handle)
}

/// The windows stand in the order in which they were reported: a new one goes to
/// the end, a change or a capture moves none, and a closed one leaves the others
/// in their order. Nothing but these reports changes the list of windows.
pub proof fn law_windows_keep_their_order(app: AppView, message: Msg, fresh: u64, now: u64)
    ensures
        handles(app.update(message, fresh, now).0.windows) == (match message {
            Msg::Backend(Event::NewToplevel(handle, info)) => handles(app.windows).push(handle),
            Msg::Backend(Event::CloseToplevel(handle)) => handles(app.windows).filter(
                |other: u64| other != handle,
            ),
            _ => handles(app.windows),
        }),
        !(message is Backend) ==> app.update(message, fresh, now).0.windows == app.windows,
{
    match message {
        Msg::Backend(Event::NewToplevel(handle, info)) => {
            assert(handles(app.update(message, fresh, now).0.windows) =~= handles(
                app.windows,
            ).push(handle));
        },
        Msg::Backend(Event::CloseToplevel(handle)) => {
            lemma_handles_without(app.windows, handle);
        },
        Msg::Backend(Event::ToplevelCapture(handle, pixels, width, height)) => {
            lemma_handles_replace(
                app.windows,
                handle,
                |window: WindowView|
                    WindowView {
                        thumbnail: Some(ThumbnailView { width, height, pixels: pixels@ }),
                        ..window
                    },
            );
        },
        Msg::Backend(Event::UpdateToplevel(handle, info)) => {
            lemma_handles_replace(
                app.windows,
                handle,
                |window: WindowView| WindowView { info: info@, ..window },
            );
        },
        _ => {},
    }
}

proof fn lemma_handles_replace(
    windows: Seq<WindowView>,
    handle: u64,
    new: spec_fn(WindowView) -> WindowView,
)
    requires
        forall|window: WindowView| (#[trigger] new(window)).handle == window.handle,
    ensures
        handles(replace_first(windows, handle, new)) == handles(windows),
    decreases windows.len(),
{
    if windows.len() == 0 {
    } else if windows[0].handle == handle {
        assert(handles(windows.update(0, new(windows[0]))) =~= handles(windows));
    } else {
        let rest = windows.drop_first();
        lemma_handles_replace(rest, handle, new);
        assert(handles(seq![windows[0]] + replace_first(rest, handle, new)) =~= seq![
            windows[0].handle,
        ] + handles(rest));
        assert(seq![windows[0].handle] + handles(rest) =~= handles(windows));
    }
}

proof fn lemma_handles_without(windows: Seq<WindowView>, handle: u64)
    ensures
        handles(without_handle(windows, handle)) == handles(windows).filter(
            |other: u64| other != handle,
        ),
    decreases windows.len(),
{
    reveal(Seq::filter);
    if windows.len() > 0 {
        let rest = windows.drop_last();
        lemma_handles_without(rest, handle);
        assert(handles(windows).drop_last() =~= handles(rest));
        assert(handles(without_handle(rest, handle).push(windows.last())) =~= handles(
            without_handle(rest, handle),
        ).push(windows.last().handle));
    } else {
        assert(handles(without_handle(windows, handle)) =~= handles(windows).filter(
            |other: u64| other != handle,
        ));
    }
}

/// The windows have different handles, and the selection is one of them, or the
/// first place while there are none.
pub open spec fn selection_holds(app: AppView) -> bool {
    &&& handles(app.windows).no_duplicates()
    &&& app.selected < app.windows.len() || (app.windows.len() == 0 && app.selected == 0)
}

/// The selection holds in the beginning.
pub proof fn law_selection_starts(
    clock: Clock,
    action: Option<AltTabAction>,
    fresh: u64,
    now: u64,
)
    ensures
        selection_holds(AppView::launched(clock, action, fresh, now).0),
{
}

/// The selection stays with the windows: no message takes it beyond them, as
/// long as clicks come from the strip and a handle is not reported as new twice.
pub proof fn law_selection_stays(app: AppView, message: Msg, fresh: u64, now: u64)
    requires
        selection_holds(app),
        message matches Msg::Activate(i) ==> i < app.windows.len(),
        message matches Msg::Backend(Event::NewToplevel(handle, info)) ==> !has_handle(
            app.windows,
            handle,
        ),
    ensures
        selection_holds(app.update(message, fresh, now).0),
{
    law_windows_keep_their_order(app, message, fresh, now);
    let after = app.update(message, fresh, now).0;
    assert(handles(after.windows).len() == after.windows.len());
    assert(handles(app.windows).len() == app.windows.len());
    match message {
        Msg::Backend(Event::NewToplevel(handle, info)) => {
            assert forall|i: int, j: int|
                0 <= i < j < handles(after.windows).len() implies handles(after.windows)[i]
                != handles(after.windows)[j] by {
                assert(handles(app.windows)[i] == app.windows[i].handle);
            }
        },
        Msg::Backend(Event::CloseToplevel(handle)) => {
            let keep = |other: u64| other != handle;
            lemma_filter_distinct(handles(app.windows), keep);
            lemma_filter_drops_at_most_one(handles(app.windows), handle);
        },
        _ => {},
    }
}

proof fn lemma_filter_distinct(list: Seq<u64>, keep: spec_fn(u64) -> bool)
    requires
        list.no_duplicates(),
    ensures
        list.filter(keep).no_duplicates(),
        forall|value: u64| list.filter(keep).contains(value) ==> list.contains(value),
    decreases list.len(),
{
    reveal(Seq::filter);
    if list.len() > 0 {
        let rest = list.drop_last();
        lemma_filter_distinct(rest, keep);
        assert(list =~= rest.push(list.last()));
        assert(forall|value: u64| rest.contains(value) ==> list.contains(value));
        assert(list.contains(list.last()));
        assert(!rest.contains(list.last()));
    }
}

proof fn lemma_filter_drops_at_most_one(list: Seq<u64>, value: u64)
    requires
        list.no_duplicates(),
    ensures
        list.filter(|other: u64| other != value).len() >= list.len() - 1,
        !list.contains(value) ==> list.filter(|other: u64| other != value) == list,
    decreases list.len(),
{
    reveal(Seq::filter);
    if list.len() > 0 {
        let rest = list.drop_last();
        lemma_filter_drops_at_most_one(rest, value);
        assert(list =~= rest.push(list.last()));
        assert(list[list.len() - 1] == list.last());
        assert(list.contains(list.last()));
        assert(forall|other: u64| rest.contains(other) ==> list.contains(other));
    }
}

/// With the selection among the windows every message can be taken.
pub proof fn law_selection_accepts_every_message(app: AppView, message: Msg)
    requires
        selection_holds(app),
        app.windows.len() <= usize::MAX,
    ensures
        app.accepts(message),
{
}

/// Going forward and back again, or back and forward, leads to the same selection
/// and changes nothing else, but that no action waits any more.
pub proof fn law_next_and_prev_undo_each_other(app: AppView)
    requires
        app.selected < app.windows.len(),
    ensures
        app.select_next().select_prev() == (AppView { pending_action: None, ..app }),
        app.select_prev().select_next() == (AppView { pending_action: None, ..app }),
{
    let count = app.windows.len() as int;
    lemma_wrapped(app.selected as int + 1, count);
    lemma_wrapped(app.selected as int, count);
    lemma_wrapped(count, count);
}

/// The remainder of a place at most one round off.
proof fn lemma_wrapped(place: int, count: int)
    requires
        0 < count,
        -count <= place < 2 * count,
    ensures
        place % count == (if place < 0 {
            place + count
        } else if place < count {
            place
        } else {
            place - count
        }),
{
    if place < 0 {
        vstd::arithmetic::div_mod::lemma_mod_add_multiples_vanish(place, count);
        vstd::arithmetic::div_mod::lemma_small_mod((place + count) as nat, count as nat);
    } else if place < count {
        vstd::arithmetic::div_mod::lemma_small_mod(place as nat, count as nat);
    } else {
        vstd::arithmetic::div_mod::lemma_mod_add_multiples_vanish(place - count, count);
        vstd::arithmetic::div_mod::lemma_small_mod((place - count) as nat, count as nat);
    }
}

/// The state after going forward a number of times.
pub open spec fn advance(app: AppView, times: nat) -> AppView
    decreases times,
{
    if times == 0 {
        app
    } else {
        advance(app, (times - 1) as nat).select_next()
    }
}

/// The state after going back a number of times.
pub open spec fn retreat(app: AppView, times: nat) -> AppView
    decreases times,
{
    if times == 0 {
        app
    } else {
        retreat(app, (times - 1) as nat).select_prev()
    }
}

/// The state with the selection moved to a place.
pub open spec fn moved_to(app: AppView, place: int) -> AppView {
    AppView { selected: place as nat, pending_action: None, ..app }
}

/// Going forward goes round: after as many steps the selection is that many
/// places further, counted on from the first window behind the last.
pub proof fn law_next_goes_round(app: AppView, times: nat)
    requires
        app.selected < app.windows.len(),
        times > 0,
    ensures
        advance(app, times) == moved_to(
            app,
            (app.selected as int + times) % app.windows.len() as int,
        ),
    decreases times,
{
    let before = (times - 1) as nat;
    if before == 0 {
        lemma_wrapped(app.selected as int, app.windows.len() as int);
    } else {
        law_next_goes_round(app, before);
    }
    lemma_moves_add_up(advance(app, before), app.selected as int + before);
}

/// Going back goes round: after as many steps the selection is that many places
/// earlier, counted on from the last window before the first.
pub proof fn law_prev_goes_round(app: AppView, times: nat)
    requires
        app.selected < app.windows.len(),
        times > 0,
    ensures
        retreat(app, times) == moved_to(app, (app.selected - times) % app.windows.len() as int),
    decreases times,
{
    let before = (times - 1) as nat;
    if before == 0 {
        lemma_wrapped(app.selected as int, app.windows.len() as int);
    } else {
        law_prev_goes_round(app, before);
    }
    lemma_moves_add_up(retreat(app, before), app.selected - before);
}

/// As many steps as there are windows, all forward or all back, lead back to the
/// same selection.
pub proof fn law_full_round_changes_nothing(app: AppView)
    requires
        app.selected < app.windows.len(),
    ensures
        advance(app, app.windows.len()) == moved_to(app, app.selected as int),
        retreat(app, app.windows.len()) == moved_to(app, app.selected as int),
{
    let count = app.windows.len();
    law_next_goes_round(app, count);
    law_prev_goes_round(app, count);
    lemma_wrapped(app.selected as int + count, count as int);
    lemma_wrapped(app.selected - count, count as int);
}

/// The selection after some steps forward, and after some back, fewer than a round.
proof fn lemma_within_a_round(app: AppView, times: nat)
    requires
        app.selected < app.windows.len(),
        times < app.windows.len(),
    ensures
        advance(app, times).selected == (if app.selected + times < app.windows.len() {
            app.selected as int + times
        } else {
            app.selected + times - app.windows.len()
        }),
        retreat(app, times).selected == (if times <= app.selected {
            app.selected - times
        } else {
            app.selected - times + app.windows.len()
        }),
{
    if times > 0 {
        law_next_goes_round(app, times);
        law_prev_goes_round(app, times);
        lemma_wrapped(app.selected as int + times, app.windows.len() as int);
        lemma_wrapped(app.selected - times, app.windows.len() as int);
    }
}

/// A round forward visits every window, and none twice. So does a round back.
pub proof fn law_round_visits_every_window_once(app: AppView, index: nat)
    requires
        app.selected < app.windows.len(),
        index < app.windows.len(),
    ensures
        exists|times: nat|
            times < app.windows.len() && (#[trigger] advance(app, times)).selected == index,
        exists|times: nat|
            times < app.windows.len() && (#[trigger] retreat(app, times)).selected == index,
        forall|one: nat, other: nat|
            one < other < app.windows.len() ==> (#[trigger] advance(app, one)).selected != (
            #[trigger] advance(app, other)).selected,
        forall|one: nat, other: nat|
            one < other < app.windows.len() ==> (#[trigger] retreat(app, one)).selected != (
            #[trigger] retreat(app, other)).selected,
{
    let count = app.windows.len();
    let forward = (if app.selected <= index {
        index - app.selected
    } else {
        index - app.selected + count
    }) as nat;
    let back = (if index <= app.selected {
        app.selected - index
    } else {
        app.selected - index + count
    }) as nat;
    lemma_within_a_round(app, forward);
    lemma_within_a_round(app, back);
    assert(advance(app, forward).selected == index);
    assert(retreat(app, back).selected == index);
    assert forall|one: nat, other: nat| one < other < count implies (#[trigger] advance(
        app,
        one,
    )).selected != (#[trigger] advance(app, other)).selected by {
        lemma_within_a_round(app, one);
        lemma_within_a_round(app, other);
    }
    assert forall|one: nat, other: nat| one < other < count implies (#[trigger] retreat(
        app,
        one,
    )).selected != (#[trigger] retreat(app, other)).selected by {
        lemma_within_a_round(app, one);
        lemma_within_a_round(app, other);
    }
}

/// The action of the launch waits, and its step is taken among the windows so far:
/// they have different handles, and the selection is one step from the first.
pub open spec fn launch_holds(app: AppView, action: AltTabAction) -> bool {
    &&& handles(app.windows).no_duplicates()
    &&& app.pending_action == Some(action)
    &&& app.selected == first_step(action, app.windows.len())
}

/// A launch with an action makes it wait for the windows.
pub proof fn law_launch_waits_for_windows(
    clock: Clock,
    action: AltTabAction,
    fresh: u64,
    now: u64,
)
    ensures
        launch_holds(AppView::launched(clock, Some(action), fresh, now).0, action),
{
}

/// The step of a waiting action is the one that the action takes from the first
/// window: forward to the second, or back to the last.
pub proof fn law_launch_steps_from_the_first_window(app: AppView, action: AltTabAction)
    requires
        app.windows.len() > 0,
    ensures
        ({
            let first = AppView { selected: 0, ..app };
            first_step(action, app.windows.len()) == (match action {
                AltTabAction::AltTab => first.select_next(),
                AltTabAction::ShiftAltTab => first.select_prev(),
            }).selected
        }),
{
    lemma_wrapped(1, app.windows.len() as int);
}

/// Whatever comes in, the step of a waiting action stays taken, until the action
/// waits no more. Reports, ticks, and notices that Alt is held leave it waiting.
pub proof fn law_launch_step_stays_taken(
    app: AppView,
    action: AltTabAction,
    message: Msg,
    fresh: u64,
    now: u64,
)
    requires
        app.consistent(),
        launch_holds(app, action),
        message matches Msg::Backend(Event::NewToplevel(handle, info)) ==> !has_handle(
            app.windows,
            handle,
        ),
    ensures
        ({
            let after = app.update(message, fresh, now).0;
            &&& after.pending_action is Some ==> launch_holds(after, action)
            &&& message is Backend || message is FadeTick || message is Show || message is Surface
                || message == Msg::ModifiersChanged(true) ==> after.pending_action is Some
        }),
{
    law_windows_keep_their_order(app, message, fresh, now);
    let after = app.update(message, fresh, now).0;
    assert(handles(after.windows).len() == after.windows.len());
    assert(handles(app.windows).len() == app.windows.len());
    match message {
        Msg::Backend(Event::NewToplevel(handle, info)) => {
            assert forall|i: int, j: int|
                0 <= i < j < handles(after.windows).len() implies handles(after.windows)[i]
                != handles(after.windows)[j] by {
                assert(handles(app.windows)[i] == app.windows[i].handle);
            }
        },
        Msg::Backend(Event::CloseToplevel(handle)) => {
            lemma_filter_distinct(handles(app.windows), |other: u64| other != handle);
            lemma_filter_drops_at_most_one(handles(app.windows), handle);
            lemma_filter_shortens(handles(app.windows), |other: u64| other != handle);
        },
        _ => {},
    }
}

proof fn lemma_filter_shortens(list: Seq<u64>, keep: spec_fn(u64) -> bool)
    ensures
        list.filter(keep).len() <= list.len(),
    decreases list.len(),
{
    reveal(Seq::filter);
    if list.len() > 0 {
        lemma_filter_shortens(list.drop_last(), keep);
    }
}

/// The step is one that happens while the windows come in after a launch: a report
/// of a window or of its contents, the notice that commands can be sent, a tick of
/// the fade, a request to show what is shown already, or a notice that Alt is still
/// held.
pub open spec fn while_launching(step: Step) -> bool {
    match step.input {
        Input::Message(message) => match message {
            Msg::Backend(event) => !(event is CloseToplevel),
            _ => message is FadeTick || message is Show || message is Surface || message
                == Msg::ModifiersChanged(true),
        },
        Input::Activation(_) => false,
    }
}

/// Launching with an action, waiting for the windows and letting go of Alt switches
/// to the window one step from the first, forward or back as the action says.
pub proof fn law_launch_and_release_switches(
    clock: Clock,
    action: AltTabAction,
    fresh: u64,
    launched_at: u64,
    steps: Seq<Step>,
    released_at: u64,
)
    requires
        forall|i: int| 0 <= i < steps.len() ==> while_launching(#[trigger] steps[i]),
    ensures
        ({
            let launched = AppView::launched(clock, Some(action), fresh, launched_at).0;
            let listed = run(launched, steps).0;
            let place = first_step(action, listed.windows.len());
            let (closing, effects) = listed.update(
                Msg::ModifiersChanged(false),
                fresh,
                released_at,
            );
            &&& listed.selected == place
            &&& closing.fade_phase == FadePhase::FadingOut
            &&& listed.connected && listed.windows.len() > 0 ==> effects == seq![
                Effect::Send(Cmd::ActivateToplevel(listed.windows[place as int].handle)),
            ]
        }),
{
    let launched = AppView::launched(clock, Some(action), fresh, launched_at).0;
    lemma_launching_run(launched, action, steps);
}

proof fn lemma_launching_run(app: AppView, action: AltTabAction, steps: Seq<Step>)
    requires
        app.consistent(),
        app.pending_action == Some(action),
        app.selected == first_step(action, app.windows.len()),
        forall|i: int| 0 <= i < steps.len() ==> while_launching(#[trigger] steps[i]),
    ensures
        ({
            let listed = run(app, steps).0;
            &&& listed.consistent()
            &&& listed.pending_action == Some(action)
            &&& listed.selected == first_step(action, listed.windows.len())
        }),
    decreases steps.len(),
{
    if steps.len() > 0 {
        let before = steps.drop_last();
        assert forall|i: int| 0 <= i < before.len() implies while_launching(
            #[trigger] before[i],
        ) by {
            assert(before[i] == steps[i]);
        }
        lemma_launching_run(app, action, before);
        let step = steps[steps.len() - 1];
        assert(while_launching(step));
        let reached = run(app, before).0;
        if let Input::Message(message) = step.input {
            law_windows_keep_their_order(reached, message, step.fresh, step.now);
            let after = reached.update(message, step.fresh, step.now).0;
            assert(handles(after.windows).len() == after.windows.len());
            assert(handles(reached.windows).len() == reached.windows.len());
        }
    }
}

/// The step is one that happens while Alt is held: a key that moves the
/// selection, a tick of the fade, a notice that Alt is still held, a captured frame
/// or a new title, a request to show what is shown already, or an activation from
/// outside. Only windows that come or go are left out.
pub open spec fn while_held(step: Step) -> bool {
    match step.input {
        Input::Message(message) => match message {
            Msg::Backend(event) => !(event is NewToplevel) && !(event is CloseToplevel),
            _ => message is Next || message is Prev || message is FadeTick || message is Show
                || message is Surface || message == Msg::ModifiersChanged(true),
        },
        Input::Activation(_) => true,
    }
}

/// How far an action moves the selection forward.
pub open spec fn action_move(action: AltTabAction) -> int {
    match action {
        AltTabAction::AltTab => 1,
        AltTabAction::ShiftAltTab => -1,
    }
}

/// How far a step moves the selection forward.
pub open spec fn move_of(step: Step) -> int {
    match step.input {
        Input::Message(Msg::Next) => 1,
        Input::Message(Msg::Prev) => -1,
        Input::Activation(Details::ActivateAction(text)) => match action_of(text@) {
            Some(action) => action_move(action),
            None => 0,
        },
        _ => 0,
    }
}

/// How far some steps move the selection forward, those back taken off.
pub open spec fn moves(steps: Seq<Step>) -> int
    decreases steps.len(),
{
    if steps.len() == 0 {
        0
    } else {
        moves(steps.drop_last()) + move_of(steps.last())
    }
}

/// Holding Alt, cycling through the windows and letting go of Alt switches to the
/// window at which the cycling arrived, and starts the fade-out. On the way
/// nothing is sent, while captured frames and new titles may come in.
pub proof fn law_hold_cycle_release_switches(
    app: AppView,
    action: AltTabAction,
    fresh: u64,
    shown_at: u64,
    steps: Seq<Step>,
    released_at: u64,
)
    requires
        app.consistent(),
        !app.visible,
        app.connected,
        app.selected < app.windows.len(),
        forall|i: int| 0 <= i < steps.len() ==> while_held(#[trigger] steps[i]),
    ensures
        ({
            let shown = app.perform(action, fresh, shown_at).0;
            let (held, sent) = run(shown, steps);
            let (closing, effects) = held.update(Msg::ModifiersChanged(false), fresh, released_at);
            let target = (app.selected + action_move(action) + moves(steps))
                % app.windows.len() as int;
            &&& sent == Seq::<Effect>::empty()
            &&& effects == seq![Effect::Send(Cmd::ActivateToplevel(app.windows[target].handle))]
            &&& closing.fade_phase == FadePhase::FadingOut
            &&& closing.pending_close == Some(fresh)
        }),
{
    let start = app.show(fresh, shown_at).0;
    let shown = app.perform(action, fresh, shown_at).0;
    let place = app.selected + action_move(action);
    lemma_wrapped(app.selected as int, app.windows.len() as int);
    lemma_moves_add_up(start, app.selected as int);
    lemma_held_run(shown, place, steps);
    let held = run(shown, steps).0;
    assert(handles(held.windows).len() == held.windows.len());
    assert(handles(app.windows).len() == app.windows.len());
    assert(handles(held.windows)[held.selected as int] == handles(
        app.windows,
    )[held.selected as int]);
}

/// Moving on from a place given by a remainder is moving on before taking the
/// remainder.
proof fn lemma_moves_add_up(app: AppView, place: int)
    requires
        app.windows.len() > 0,
        app.selected == place % app.windows.len() as int,
    ensures
        app.select_next().selected == (place + 1) % app.windows.len() as int,
        app.select_prev().selected == (place - 1) % app.windows.len() as int,
{
    let count = app.windows.len() as int;
    vstd::arithmetic::div_mod::lemma_add_mod_noop(place, 1, count);
    vstd::arithmetic::div_mod::lemma_sub_mod_noop(place, 1, count);
    if count > 1 {
        vstd::arithmetic::div_mod::lemma_small_mod(1, count as nat);
        if app.selected > 0 {
            vstd::arithmetic::div_mod::lemma_small_mod((app.selected - 1) as nat, count as nat);
        } else {
            vstd::arithmetic::div_mod::lemma_mod_add_multiples_vanish(-1, count);
            vstd::arithmetic::div_mod::lemma_small_mod((count - 1) as nat, count as nat);
        }
    }
}

proof fn lemma_held_run(app: AppView, place: int, steps: Seq<Step>)
    requires
        app.windows.len() > 0,
        app.selected == place % app.windows.len() as int,
        app.visible,
        app.alt_was_held,
        !app.cancelled,
        app.fade_phase == FadePhase::FadingIn || app.fade_phase == FadePhase::Open,
        forall|i: int| 0 <= i < steps.len() ==> while_held(#[trigger] steps[i]),
    ensures
        ({
            let (held, sent) = run(app, steps);
            &&& sent == Seq::<Effect>::empty()
            &&& handles(held.windows) == handles(app.windows)
            &&& held.selected == (place + moves(steps)) % app.windows.len() as int
            &&& app.connected ==> held.connected
            &&& held.visible
            &&& held.alt_was_held
            &&& !held.cancelled
            &&& held.layer_surface == app.layer_surface
            &&& held.fade_phase == FadePhase::FadingIn || held.fade_phase == FadePhase::Open
        }),
    decreases steps.len(),
{
    if steps.len() > 0 {
        let before = steps.drop_last();
        assert forall|i: int| 0 <= i < before.len() implies while_held(#[trigger] before[i]) by {
            assert(before[i] == steps[i]);
        }
        lemma_held_run(app, place, before);
        let step = steps[steps.len() - 1];
        assert(while_held(step));
        let reached = run(app, before).0;
        assert(handles(reached.windows).len() == reached.windows.len());
        assert(handles(app.windows).len() == app.windows.len());
        lemma_moves_add_up(reached, place + moves(before));
        if let Input::Message(message) = step.input {
            law_windows_keep_their_order(reached, message, step.fresh, step.now);
        }
        assert(Seq::<Effect>::empty() + Seq::<Effect>::empty() =~= Seq::<Effect>::empty());
    }
}

/// A running instance answers a further action by moving the selection, for a
/// switch that nothing has cancelled: it creates no other surface and sends
/// nothing.
pub proof fn law_action_cycles_running_instance(
    app: AppView,
    action: AltTabAction,
    fresh: u64,
    now: u64,
)
    requires
        app.visible,
    ensures
        app.perform(action, fresh, now) == (
            match action {
                AltTabAction::AltTab => AppView { cancelled: false, ..app.select_next() },
                AltTabAction::ShiftAltTab => AppView { cancelled: false, ..app.select_prev() },
            },
            Seq::<Effect>::empty(),
        ),
{
}

/// An action that one instance writes is what a running one carries out.
pub proof fn law_written_action_is_performed(
    app: AppView,
    action: AltTabAction,
    text: String,
    fresh: u64,
    now: u64,
)
    requires
        action_of(text@) == Some(action),
    ensures
        app.dbus_activation(Details::ActivateAction(text), fresh, now) == app.perform(
            action,
            fresh,
            now,
        ),
{
}

/// Each time the overlay comes up, every window is captured anew, in the order of
/// the windows, before the surface is created.
pub proof fn law_showing_renews_all_captures(app: AppView, fresh: u64, now: u64)
    requires
        !app.visible,
        app.connected,
    ensures
        ({
            let effects = app.update(Msg::Show, fresh, now).1;
            &&& effects.len() == app.windows.len() + 1
            &&& forall|i: int|
                0 <= i < app.windows.len() ==> #[trigger] effects[i] == Effect::Send(
                    Cmd::CaptureToplevel(app.windows[i].handle),
                )
            &&& effects.last() == Effect::GetLayerSurface(fresh)
        }),
{
}

/// A fade-in ends at the first tick that comes 250 milliseconds or more after the
/// overlay was shown, and no tick before that changes anything.
pub proof fn law_fade_in_takes_its_time(app: AppView, fresh: u64, shown_at: u64, now: u64)
    requires
        !app.visible,
    ensures
        ({
            let shown = app.update(Msg::Show, fresh, shown_at).0;
            let (ticked, effects) = shown.update(Msg::FadeTick, fresh, now);
            &&& effects == Seq::<Effect>::empty()
            &&& shown.fade_phase == FadePhase::FadingIn
            &&& millis_between(shown_at, now) < FADE_DURATION_MS ==> ticked == shown
            &&& millis_between(shown_at, now) >= FADE_DURATION_MS ==> ticked.fade_phase
                == FadePhase::Open && ticked.visible
        }),
{
}

/// A fade-out ends at the first tick that comes 250 milliseconds or more after it
/// began: then the overlay is gone and its surface is destroyed. No tick before
/// that changes anything.
pub proof fn law_fade_out_takes_its_time(app: AppView, fresh: u64, hidden_at: u64, now: u64)
    requires
        app.consistent(),
        app.visible,
        app.fade_phase != FadePhase::FadingOut,
    ensures
        ({
            let hidden = app.update(Msg::Hide, fresh, hidden_at).0;
            let (ticked, effects) = hidden.update(Msg::FadeTick, fresh, now);
            &&& hidden.fade_phase == FadePhase::FadingOut
            &&& millis_between(hidden_at, now) < FADE_DURATION_MS ==> {
                &&& ticked == hidden
                &&& effects == Seq::<Effect>::empty()
            }
            &&& millis_between(hidden_at, now) >= FADE_DURATION_MS ==> {
                &&& ticked.fade_phase == FadePhase::Idle
                &&& !ticked.visible
                &&& effects == seq![Effect::DestroyLayerSurface(app.layer_surface->0)]
            }
        }),
{
}

/// The opacity lies between none and full. It rises from none during a fade-in,
/// and falls from full during a fade-out.
pub proof fn law_opacity_follows_the_fade(app: AppView, earlier: u64, later: u64)
    requires
        earlier <= later,
    ensures
        0 <= app.fade_alpha(earlier) <= FADE_DURATION_MS,
        app.fade_phase == FadePhase::FadingIn ==> app.fade_alpha(earlier) <= app.fade_alpha(later),
        app.fade_phase == FadePhase::FadingOut ==> app.fade_alpha(earlier) >= app.fade_alpha(later),
        app.fade_phase == FadePhase::FadingIn && app.fade_start == Some(earlier)
            ==> app.fade_alpha(earlier) == 0,
        app.fade_phase == FadePhase::FadingOut && app.fade_start == Some(earlier)
            ==> app.fade_alpha(earlier) == FADE_DURATION_MS,
{
    if let Some(start) = app.fade_start {
        if start <= earlier {
            assert(millis_between(start, earlier) <= millis_between(start, later));
        }
    }
}

/// The tick that ends a fade leaves the opacity as it is at that moment.
pub proof fn law_tick_keeps_the_opacity(app: AppView, now: u64)
    ensures
        app.fade_tick(now).0.fade_alpha(now) == app.fade_alpha(now),
{
}

/// The step asks for no other switch: it is neither a click on a thumbnail nor an
/// action from outside.
pub open spec fn no_new_switch(step: Step) -> bool {
    match step.input {
        Input::Message(message) => !(message is Activate),
        Input::Activation(Details::ActivateAction(text)) => action_of(text@) is None,
        Input::Activation(_) => true,
    }
}

/// Escape sends no command, and neither does anything that follows: no release of
/// Alt, be it during the fade-out or later, and no Enter. It stays so until the
/// overlay comes up again, a thumbnail is clicked or an action comes from outside.
pub proof fn law_escape_cancels(app: AppView, fresh: u64, escaped_at: u64, steps: Seq<Step>)
    requires
        app.consistent(),
        forall|i: int| 0 <= i < steps.len() ==> no_new_switch(#[trigger] steps[i]),
    ensures
        ({
            let (escaped, effects) = app.update(Msg::Escape, fresh, escaped_at);
            let later = run(escaped, steps).1;
            &&& effects == Seq::<Effect>::empty()
            &&& (forall|i: int|
                0 <= i < later.len() ==> !((#[trigger] later[i]) is GetLayerSurface)) ==> (forall|
                i: int,
            |
                0 <= i < later.len() ==> !((#[trigger] later[i]) is Send))
        }),
{
    lemma_cancelled_run(app.update(Msg::Escape, fresh, escaped_at).0, steps);
}

/// While the overlay is down or the switch is cancelled, nothing is sent, as long as
/// the overlay does not come up again and nothing asks for another switch.
proof fn lemma_cancelled_run(app: AppView, steps: Seq<Step>)
    requires
        app.consistent(),
        !app.visible || app.cancelled,
        forall|i: int| 0 <= i < steps.len() ==> no_new_switch(#[trigger] steps[i]),
    ensures
        ({
            let (after, effects) = run(app, steps);
            (forall|i: int|
                0 <= i < effects.len() ==> !((#[trigger] effects[i]) is GetLayerSurface)) ==> {
                &&& after.consistent()
                &&& !after.visible || after.cancelled
                &&& forall|i: int| 0 <= i < effects.len() ==> !((#[trigger] effects[i]) is Send)
            }
        }),
    decreases steps.len(),
{
    let (after, effects) = run(app, steps);
    if steps.len() > 0 && (forall|i: int|
        0 <= i < effects.len() ==> !((#[trigger] effects[i]) is GetLayerSurface)) {
        let before = steps.drop_last();
        assert forall|i: int| 0 <= i < before.len() implies no_new_switch(#[trigger] before[i]) by {
            assert(before[i] == steps[i]);
        }
        let (reached, earlier) = run(app, before);
        assert forall|i: int| 0 <= i < earlier.len() implies !((
        #[trigger] earlier[i]) is GetLayerSurface) by {
            assert(effects[i] == earlier[i]);
        }
        lemma_cancelled_run(app, before);
        let step = steps[steps.len() - 1];
        assert(no_new_switch(step));
        let more = react(reached, step).1;
        assert(effects =~= earlier + more);
        assert(reached.show(step.fresh, step.now).1.len() > 0 ==> reached.show(
            step.fresh,
            step.now,
        ).1.last() is GetLayerSurface);
        if more.len() > 0 {
            assert(effects[effects.len() - 1] == more.last());
        }
        assert forall|i: int| 0 <= i < effects.len() implies !((#[trigger] effects[i]) is Send) by {
            if i < earlier.len() {
                assert(effects[i] == earlier[i]);
            } else {
                assert(effects[i] == more[i - earlier.len()]);
            }
        }
    }
}

/// While the overlay is down, no key sends a command.
pub proof fn law_hidden_overlay_sends_nothing(
    app: AppView,
    event: InputEvent,
    fresh: u64,
    now: u64,
)
    requires
        !app.visible,
    ensures
        message_for(event) matches Some(message) ==> app.update(message, fresh, now).1 == Seq::<
            Effect,
        >::empty(),
{
}

/// Enter does what letting go of Alt does: while the overlay is up, fades included,
/// it activates the selected window, unless the switch is cancelled.
pub proof fn law_enter_activates(app: AppView, modifiers: Modifiers, fresh: u64, now: u64)
    requires
        app.consistent(),
        app.visible,
        !app.cancelled,
    ensures
        ({
            let enter = message_for(InputEvent::KeyPressed { key: Key::Enter, modifiers });
            let release = message_for(
                InputEvent::ModifiersChanged(
                    Modifiers { shift: modifiers.shift, alt: false, logo: false },
                ),
            );
            &&& enter == release
            &&& enter is Some
            &&& app.update(enter->0, fresh, now) == app.activate_selected_and_close(now)
        }),
{
}

/// A click on a thumbnail activates its window and starts the fade-out.
pub proof fn law_click_activates(app: AppView, index: usize, fresh: u64, now: u64)
    requires
        app.connected,
        index < app.windows.len(),
    ensures
        ({
            let (clicked, effects) = app.update(Msg::Activate(index), fresh, now);
            &&& effects == seq![
                Effect::Send(Cmd::ActivateToplevel(app.windows[index as int].handle)),
            ]
            &&& app.visible ==> clicked.fade_phase == FadePhase::FadingOut
        }),
{
}

/// A captured frame becomes the thumbnail of the window it was captured from, and
/// changes nothing else.
pub proof fn law_capture_reaches_its_window(
    app: AppView,
    event: Event,
    i: int,
    fresh: u64,
    now: u64,
)
    requires
        event matches Event::ToplevelCapture(handle, pixels, width, height) && first_with_handle(
            app.windows,
            handle,
            i,
        ),
    ensures
        event matches Event::ToplevelCapture(handle, pixels, width, height) && app.update(
            Msg::Backend(event),
            fresh,
            now,
        ).0 == (AppView {
            windows: app.windows.update(
                i,
                WindowView {
                    thumbnail: Some(ThumbnailView { width, height, pixels: pixels@ }),
                    ..app.windows[i]
                },
            ),
            ..app
        }),
{
    if let Event::ToplevelCapture(handle, pixels, width, height) = event {
        lemma_replace_first_at(
            app.windows,
            handle,
            |window: WindowView|
                WindowView {
                    thumbnail: Some(ThumbnailView { width, height, pixels: pixels@ }),
                    ..window
                },
            i,
        );
    }
}

/// The selection stays with the windows when the switcher is activated from
/// outside.
pub proof fn law_selection_survives_activations(
    app: AppView,
    details: Details,
    fresh: u64,
    now: u64,
)
    requires
        selection_holds(app),
    ensures
        selection_holds(app.dbus_activation(details, fresh, now).0),
{
}

/// Ticks are listened for exactly while a fade is timed.
pub proof fn law_ticks_while_fading(app: AppView)
    requires
        app.consistent(),
    ensures
        app.subscription().contains(Subscription::FadeTick) <==> app.fade_start is Some,
{
    let sources = app.subscription();
    if app.fade_start is Some {
        assert(sources[0] == Subscription::FadeTick);
    } else {
        assert(sources =~= seq![Subscription::Keyboard, Subscription::Backend]);
    }
}

} // verus!
