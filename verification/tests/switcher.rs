use cosmic_altswitcher::app::{App, FadePhase, Subscription, FADE_DURATION_MS, FADE_TICK_MS};
use cosmic_altswitcher::args::{AltTabAction, Args};
use cosmic_altswitcher::carousel::{Margins, Overlay, Preview};
use cosmic_altswitcher::input::{on_input, InputEvent, Key, Modifiers};
use cosmic_altswitcher::message::{Cmd, Details, Effect, Event, Msg, ToplevelInfo};
use std::sync::Arc;

const MS: u64 = 1_000_000;

fn info(title: &str) -> ToplevelInfo {
    ToplevelInfo { title: title.to_string(), app_id: format!("app.{}", title) }
}

fn started() -> App {
    App::init(Args { subcommand: None }, 0).0
}

fn with_windows(count: u64) -> App {
    let mut app = started();
    assert!(app.update_at(Msg::Backend(Event::CmdSender), 0, 0).is_empty());
    for handle in 0..count {
        let event = Event::NewToplevel(100 + handle, info(&format!("w{}", handle)));
        assert!(app.update_at(Msg::Backend(event), 0, 0).is_empty());
    }
    app
}

fn shown(count: u64) -> App {
    let mut app = with_windows(count);
    app.update_at(Msg::Show, 7, 0);
    app
}

fn handles(app: &App) -> Vec<u64> {
    app.windows().iter().map(|window| window.handle).collect()
}

#[test]
fn starts_hidden_without_an_action() {
    let (app, effects) = App::init(Args { subcommand: None }, 1);
    assert!(effects.is_empty());
    assert!(!app.visible());
    assert_eq!(app.fade_phase(), FadePhase::Idle);
    assert_eq!(app.selected(), 0);
    assert!(app.windows().is_empty());
    assert_eq!(FadePhase::default(), FadePhase::Idle);
}

#[test]
fn starts_shown_with_an_action() {
    let (app, effects) = App::init(Args { subcommand: Some(AltTabAction::AltTab) }, 1);
    assert_eq!(effects, vec![Effect::GetLayerSurface(1)]);
    assert!(app.visible());
    assert_eq!(app.fade_phase(), FadePhase::FadingIn);
}

#[test]
fn showing_captures_all_windows_in_order() {
    let mut app = with_windows(3);
    let effects = app.update_at(Msg::Show, 9, 0);
    assert_eq!(
        effects,
        vec![
            Effect::Send(Cmd::CaptureToplevel(100)),
            Effect::Send(Cmd::CaptureToplevel(101)),
            Effect::Send(Cmd::CaptureToplevel(102)),
            Effect::GetLayerSurface(9),
        ]
    );
    assert!(app.update_at(Msg::Show, 10, 0).is_empty());
}

#[test]
fn showing_without_a_sender_captures_nothing() {
    let mut app = started();
    app.update_at(Msg::Backend(Event::NewToplevel(1, info("a"))), 0, 0);
    assert_eq!(app.update_at(Msg::Show, 9, 0), vec![Effect::GetLayerSurface(9)]);
}

#[test]
fn second_window_becomes_the_selection() {
    assert_eq!(with_windows(1).selected(), 0);
    assert_eq!(with_windows(2).selected(), 1);
    assert_eq!(with_windows(5).selected(), 1);
    let mut app = with_windows(3);
    app.update_at(Msg::Prev, 0, 0);
    assert_eq!(app.selected(), 0);
    app.update_at(Msg::Backend(Event::NewToplevel(200, info("new"))), 0, 0);
    assert_eq!(app.selected(), 1);
}

#[test]
fn next_and_prev_go_round() {
    let mut app = with_windows(3);
    let mut seen = Vec::new();
    for _ in 0..4 {
        app.update_at(Msg::Next, 0, 0);
        seen.push(app.selected());
    }
    assert_eq!(seen, vec![2, 0, 1, 2]);
    seen.clear();
    for _ in 0..4 {
        app.update_at(Msg::Prev, 0, 0);
        seen.push(app.selected());
    }
    assert_eq!(seen, vec![1, 0, 2, 1]);
}

#[test]
fn next_and_prev_without_windows_do_nothing() {
    let mut app = started();
    assert!(app.accepts(&Msg::Next));
    app.update_at(Msg::Next, 0, 0);
    assert_eq!(app.selected(), 0);
    app.update_at(Msg::Prev, 0, 0);
    assert_eq!(app.selected(), 0);
}

#[test]
fn a_selection_at_the_end_of_the_integers_cannot_advance() {
    let mut app = with_windows(2);
    assert!(app.update_at(Msg::Activate(usize::MAX), 0, 0).is_empty());
    assert_eq!(app.selected(), usize::MAX);
    assert!(!app.accepts(&Msg::Next));
    assert!(app.accepts(&Msg::Prev));
    app.update_at(Msg::Prev, 0, 0);
    assert!(app.accepts(&Msg::Next));
}

#[test]
fn letting_go_of_alt_switches() {
    let mut app = shown(4);
    app.update_at(Msg::Next, 0, 0);
    assert!(app.update_at(Msg::ModifiersChanged(true), 0, 0).is_empty());
    let effects = app.update_at(Msg::ModifiersChanged(false), 0, 300 * MS);
    assert_eq!(effects, vec![Effect::Send(Cmd::ActivateToplevel(102))]);
    assert_eq!(app.fade_phase(), FadePhase::FadingOut);
    assert!(app.visible());
}

#[test]
fn alt_that_was_not_held_does_not_switch() {
    let mut app = with_windows(2);
    assert!(app.update_at(Msg::ModifiersChanged(false), 0, 0).is_empty());
    assert_eq!(app.fade_phase(), FadePhase::Idle);
    app.update_at(Msg::Show, 1, 0);
    let effects = app.update_at(Msg::ModifiersChanged(false), 0, 0);
    assert_eq!(effects, vec![Effect::Send(Cmd::ActivateToplevel(101))]);
}

#[test]
fn alt_released_during_the_fade_out_after_escape_sends_nothing() {
    let mut app = shown(2);
    app.update_at(Msg::FadeTick, 0, 250 * MS);
    assert_eq!(app.fade_phase(), FadePhase::Open);
    assert!(app.update_at(Msg::Escape, 0, 300 * MS).is_empty());
    assert!(app.update_at(Msg::ModifiersChanged(false), 0, 400 * MS).is_empty());
    assert!(app.update_at(Msg::ModifiersChanged(true), 0, 410 * MS).is_empty());
    assert!(app.update_at(Msg::ModifiersChanged(false), 0, 420 * MS).is_empty());
    assert_eq!(app.fade_phase(), FadePhase::FadingOut);
    assert_eq!(app.update_at(Msg::FadeTick, 0, 550 * MS), vec![Effect::DestroyLayerSurface(7)]);
    assert!(app.update_at(Msg::ModifiersChanged(false), 0, 560 * MS).is_empty());
}

#[test]
fn alt_released_during_other_fade_outs_switches() {
    let switch = |handle: u64| vec![Effect::Send(Cmd::ActivateToplevel(handle))];
    let mut app = shown(3);
    assert_eq!(app.update_at(Msg::ModifiersChanged(false), 0, 0), switch(101));
    assert_eq!(app.update_at(Msg::ModifiersChanged(false), 0, 10 * MS), switch(101));
    assert_eq!(app.update_at(Msg::FadeTick, 0, 250 * MS), vec![Effect::DestroyLayerSurface(7)]);
    assert!(app.update_at(Msg::ModifiersChanged(false), 0, 260 * MS).is_empty());
    let mut app = shown(3);
    assert_eq!(app.update_at(Msg::Activate(2), 0, 0), switch(102));
    assert_eq!(app.update_at(Msg::ModifiersChanged(false), 0, 10 * MS), switch(102));
    let mut app = shown(3);
    assert!(app.update_at(Msg::Hide, 0, 0).is_empty());
    assert_eq!(app.update_at(Msg::ModifiersChanged(false), 0, 10 * MS), switch(101));
}

#[test]
fn escape_cancels_during_a_fade_out_too() {
    let mut app = shown(2);
    assert_eq!(app.update_at(Msg::ModifiersChanged(false), 0, 0).len(), 1);
    assert!(app.update_at(Msg::Escape, 0, 10 * MS).is_empty());
    assert!(app.update_at(Msg::ModifiersChanged(false), 0, 20 * MS).is_empty());
    assert_eq!(app.update_at(Msg::FadeTick, 0, 250 * MS), vec![Effect::DestroyLayerSurface(7)]);
}

#[test]
fn a_switch_can_be_asked_for_after_escape() {
    let switch = |handle: u64| vec![Effect::Send(Cmd::ActivateToplevel(handle))];
    let mut app = shown(3);
    app.update_at(Msg::Escape, 0, 0);
    assert!(app.perform_at(AltTabAction::AltTab, 8, 10 * MS).is_empty());
    assert_eq!(app.update_at(Msg::ModifiersChanged(false), 0, 20 * MS), switch(102));
    let mut app = shown(3);
    app.update_at(Msg::Escape, 0, 0);
    assert_eq!(app.update_at(Msg::Activate(0), 0, 10 * MS), switch(100));
    let mut app = shown(3);
    app.update_at(Msg::Escape, 0, 0);
    app.update_at(Msg::FadeTick, 0, 250 * MS);
    app.update_at(Msg::Show, 8, 300 * MS);
    assert_eq!(app.update_at(Msg::ModifiersChanged(false), 0, 310 * MS), switch(101));
    app.update_at(Msg::FadeTick, 0, 600 * MS);
    app.update_at(Msg::Escape, 0, 700 * MS);
    app.update_at(Msg::Show, 9, 800 * MS);
    assert_eq!(app.update_at(Msg::ModifiersChanged(false), 0, 810 * MS), switch(101));
}

fn launched(action: AltTabAction, count: u64) -> App {
    let (mut app, effects) = App::init(Args { subcommand: Some(action) }, 3);
    assert_eq!(effects, vec![Effect::GetLayerSurface(3)]);
    app.update_at(Msg::Backend(Event::CmdSender), 0, 0);
    for handle in 0..count {
        let event = Event::NewToplevel(100 + handle, info(&format!("w{}", handle)));
        assert!(app.update_at(Msg::Backend(event), 0, 0).is_empty());
    }
    app
}

#[test]
fn a_launch_forward_selects_the_second_window() {
    assert_eq!(launched(AltTabAction::AltTab, 0).selected(), 0);
    assert_eq!(launched(AltTabAction::AltTab, 1).selected(), 0);
    assert_eq!(launched(AltTabAction::AltTab, 2).selected(), 1);
    let mut app = launched(AltTabAction::AltTab, 3);
    assert_eq!(app.selected(), 1);
    let effects = app.update_at(Msg::ModifiersChanged(false), 0, 0);
    assert_eq!(effects, vec![Effect::Send(Cmd::ActivateToplevel(101))]);
}

#[test]
fn a_launch_backward_selects_the_last_window() {
    assert_eq!(launched(AltTabAction::ShiftAltTab, 0).selected(), 0);
    assert_eq!(launched(AltTabAction::ShiftAltTab, 1).selected(), 0);
    assert_eq!(launched(AltTabAction::ShiftAltTab, 2).selected(), 1);
    let mut app = launched(AltTabAction::ShiftAltTab, 3);
    assert_eq!(app.selected(), 2);
    app.update_at(Msg::Backend(Event::CloseToplevel(100)), 0, 0);
    assert_eq!(app.selected(), 1);
    app.update_at(Msg::Backend(Event::NewToplevel(200, info("new"))), 0, 0);
    assert_eq!(app.selected(), 2);
    let effects = app.update_at(Msg::ModifiersChanged(false), 0, 0);
    assert_eq!(effects, vec![Effect::Send(Cmd::ActivateToplevel(200))]);
    app.update_at(Msg::Backend(Event::NewToplevel(201, info("late"))), 0, 0);
    assert_eq!(app.selected(), 2);
}

#[test]
fn moving_the_selection_ends_the_launch() {
    let mut app = launched(AltTabAction::ShiftAltTab, 3);
    app.update_at(Msg::Prev, 0, 0);
    assert_eq!(app.selected(), 1);
    app.update_at(Msg::Backend(Event::NewToplevel(200, info("new"))), 0, 0);
    assert_eq!(app.selected(), 1);
    let mut app = launched(AltTabAction::ShiftAltTab, 0);
    app.update_at(Msg::Next, 0, 0);
    app.update_at(Msg::Backend(Event::NewToplevel(1, info("a"))), 0, 0);
    app.update_at(Msg::Backend(Event::NewToplevel(2, info("b"))), 0, 0);
    app.update_at(Msg::Backend(Event::NewToplevel(3, info("c"))), 0, 0);
    assert_eq!(app.selected(), 2);
    let mut app = launched(AltTabAction::ShiftAltTab, 2);
    app.update_at(Msg::Escape, 0, 0);
    app.update_at(Msg::Backend(Event::NewToplevel(200, info("new"))), 0, 0);
    assert_eq!(app.selected(), 1);
}

#[test]
fn escape_cancels() {
    let mut app = shown(3);
    assert!(app.update_at(Msg::Escape, 0, 10 * MS).is_empty());
    assert_eq!(app.update_at(Msg::FadeTick, 0, 260 * MS), vec![Effect::DestroyLayerSurface(7)]);
    assert!(app.update_at(Msg::ModifiersChanged(false), 0, 270 * MS).is_empty());
    assert!(!app.visible());
}

#[test]
fn a_click_switches() {
    let mut app = shown(3);
    assert_eq!(app.update_at(Msg::Activate(2), 0, 0), vec![Effect::Send(Cmd::ActivateToplevel(102))]);
    assert_eq!(app.selected(), 2);
    assert_eq!(app.fade_phase(), FadePhase::FadingOut);
}

#[test]
fn a_click_beside_the_windows_only_closes() {
    let mut app = shown(3);
    assert!(app.update_at(Msg::Activate(3), 0, 0).is_empty());
    assert_eq!(app.selected(), 3);
    assert_eq!(app.fade_phase(), FadePhase::FadingOut);
}

#[test]
fn a_fade_in_takes_250_milliseconds() {
    let mut app = shown(1);
    app.update_at(Msg::FadeTick, 0, 250 * MS - 1);
    assert_eq!(app.fade_phase(), FadePhase::FadingIn);
    app.update_at(Msg::FadeTick, 0, 250 * MS);
    assert_eq!(app.fade_phase(), FadePhase::Open);
    assert!(app.update_at(Msg::FadeTick, 0, 900 * MS).is_empty());
    assert_eq!(app.fade_phase(), FadePhase::Open);
    assert_eq!((FADE_DURATION_MS, FADE_TICK_MS), (250, 8));
}

#[test]
fn a_fade_out_takes_250_milliseconds() {
    let mut app = shown(1);
    app.update_at(Msg::Hide, 0, 1000 * MS);
    app.update_at(Msg::Hide, 0, 1200 * MS);
    assert!(app.update_at(Msg::FadeTick, 0, 1249 * MS).is_empty());
    assert_eq!(app.fade_phase(), FadePhase::FadingOut);
    assert_eq!(app.update_at(Msg::FadeTick, 0, 1250 * MS), vec![Effect::DestroyLayerSurface(7)]);
    assert_eq!(app.fade_phase(), FadePhase::Idle);
    assert!(!app.visible());
}

#[test]
fn a_tick_from_before_the_fade_changes_nothing() {
    let mut app = with_windows(1);
    app.update_at(Msg::Show, 7, 1000 * MS);
    assert!(app.update_at(Msg::FadeTick, 0, 0).is_empty());
    assert_eq!(app.fade_phase(), FadePhase::FadingIn);
}

#[test]
fn opacity_rises_and_falls() {
    let mut app = with_windows(1);
    assert_eq!(app.fade_alpha_at(5), 0);
    app.update_at(Msg::Show, 7, 100 * MS);
    assert_eq!(app.fade_alpha_at(100 * MS), 0);
    assert_eq!(app.fade_alpha_at(150 * MS), 50);
    assert_eq!(app.fade_alpha_at(900 * MS), 250);
    app.update_at(Msg::FadeTick, 0, 350 * MS);
    assert_eq!(app.fade_alpha_at(0), 250);
    app.update_at(Msg::Hide, 0, 1000 * MS);
    assert_eq!(app.fade_alpha_at(1000 * MS), 250);
    assert_eq!(app.fade_alpha_at(1100 * MS), 150);
    assert_eq!(app.fade_alpha_at(2000 * MS), 0);
}

#[test]
fn surfaces_come_and_go_in_turn() {
    let mut app = with_windows(0);
    let mut effects = Vec::new();
    for round in 0..3u64 {
        let start = round * 1000 * MS;
        effects.extend(app.update_at(Msg::Show, round, start));
        effects.extend(app.update_at(Msg::Show, 50 + round, start));
        effects.extend(app.update_at(Msg::FadeTick, 0, start + 250 * MS));
        effects.extend(app.update_at(Msg::Hide, 0, start + 300 * MS));
        effects.extend(app.update_at(Msg::FadeTick, 0, start + 550 * MS));
        effects.extend(app.update_at(Msg::FadeTick, 0, start + 560 * MS));
    }
    assert_eq!(
        effects,
        vec![
            Effect::GetLayerSurface(0),
            Effect::DestroyLayerSurface(0),
            Effect::GetLayerSurface(1),
            Effect::DestroyLayerSurface(1),
            Effect::GetLayerSurface(2),
            Effect::DestroyLayerSurface(2),
        ]
    );
}

#[test]
fn closing_windows_keeps_order_and_selection() {
    let mut app = with_windows(4);
    app.update_at(Msg::Activate(3), 0, 0);
    app.update_at(Msg::Backend(Event::CloseToplevel(101)), 0, 0);
    assert_eq!(handles(&app), vec![100, 102, 103]);
    assert_eq!(app.selected(), 2);
    app.update_at(Msg::Backend(Event::CloseToplevel(999)), 0, 0);
    assert_eq!(handles(&app), vec![100, 102, 103]);
    for handle in [100, 102, 103] {
        app.update_at(Msg::Backend(Event::CloseToplevel(handle)), 0, 0);
    }
    assert!(app.windows().is_empty());
    assert_eq!(app.selected(), 0);
}

#[test]
fn updates_change_the_first_window_with_the_handle() {
    let mut app = with_windows(2);
    app.update_at(Msg::Backend(Event::UpdateToplevel(101, info("renamed"))), 0, 0);
    app.update_at(Msg::Backend(Event::UpdateToplevel(5, info("unknown"))), 0, 0);
    let titles: Vec<&str> = app.windows().iter().map(|w| w.info.title.as_str()).collect();
    assert_eq!(titles, vec!["w0", "renamed"]);
    assert_eq!(handles(&app), vec![100, 101]);
}

#[test]
fn captures_become_thumbnails() {
    let mut app = with_windows(2);
    let pixels = Arc::new(vec![1, 2, 3, 4, 5, 6, 7, 8]);
    let kept = pixels.clone();
    app.update_at(Msg::Backend(Event::ToplevelCapture(101, pixels, 2, 1)), 0, 0);
    app.update_at(Msg::Backend(Event::ToplevelCapture(7, Arc::new(vec![9]), 1, 1)), 0, 0);
    assert!(app.windows()[0].thumbnail.is_none());
    let thumbnail = app.windows()[1].thumbnail.clone().unwrap();
    assert_eq!((thumbnail.width, thumbnail.height), (2, 1));
    assert_eq!(thumbnail.pixels, *kept);
    app.update_at(Msg::Backend(Event::ToplevelCapture(100, Arc::new(vec![4; 4]), 1, 1)), 0, 0);
    assert_eq!(app.windows()[0].thumbnail.clone().unwrap().pixels, vec![4; 4]);
}

#[test]
fn an_action_from_outside_shows_and_moves() {
    let mut app = with_windows(3);
    let effects = app.dbus_activation(Details::ActivateAction(AltTabAction::AltTab.to_string()), 5);
    assert_eq!(effects.len(), 4);
    assert_eq!(effects[3], Effect::GetLayerSurface(5));
    assert_eq!(app.selected(), 2);
    let effects = app.dbus_activation(Details::ActivateAction("\"AltTab\"".to_string()), 6);
    assert!(effects.is_empty());
    assert_eq!(app.selected(), 0);
    let effects = app.dbus_activation(Details::ActivateAction("\"ShiftAltTab\"".to_string()), 6);
    assert!(effects.is_empty());
    assert_eq!(app.selected(), 2);
}

#[test]
fn other_activations() {
    let mut app = with_windows(1);
    assert!(app.dbus_activation(Details::Open, 5).is_empty());
    assert!(app.dbus_activation(Details::ActivateAction("nothing".to_string()), 5).is_empty());
    assert!(!app.visible());
    assert_eq!(app.dbus_activation(Details::Activate, 5).len(), 2);
    assert!(app.visible());
    assert_eq!(app.selected(), 0);
}

#[test]
fn actions_at_a_moment() {
    let mut app = with_windows(3);
    assert_eq!(app.perform_at(AltTabAction::ShiftAltTab, 5, 0).len(), 4);
    assert_eq!(app.selected(), 0);
    assert!(app.perform_at(AltTabAction::AltTab, 6, 0).is_empty());
    assert_eq!(app.selected(), 1);
}

#[test]
fn the_clock_runs() {
    let mut app = with_windows(1);
    assert_eq!(app.update(Msg::Show, 3).len(), 2);
    assert!(app.fade_alpha() <= 250);
    assert!(app.update(Msg::Surface, 0).is_empty());
    assert!(app.update(Msg::Hide, 0).is_empty());
    assert_eq!(app.fade_phase(), FadePhase::FadingOut);
}

#[test]
fn fades_end_by_the_clock() {
    let mut app = with_windows(2);
    app.update(Msg::Show, 3);
    app.update(Msg::FadeTick, 0);
    assert_eq!(app.fade_phase(), FadePhase::FadingIn);
    let shown = std::time::Instant::now();
    while shown.elapsed().as_millis() < 251 {}
    assert_eq!(app.fade_alpha(), 250);
    let Overlay::Strip { alpha, cards, .. } = app.view_window() else {
        panic!("no strip");
    };
    assert_eq!(alpha, 250);
    assert_eq!((cards[0].alpha, cards[1].alpha), (23_000, 25_000));
    app.update(Msg::FadeTick, 0);
    assert_eq!(app.fade_phase(), FadePhase::Open);
    app.dbus_activation(Details::ActivateAction("\"AltTab\"".to_string()), 0);
    assert_eq!(app.selected(), 0);
    app.update(Msg::Hide, 0);
    let hidden = std::time::Instant::now();
    while hidden.elapsed().as_millis() < 251 {}
    assert_eq!(app.fade_alpha(), 0);
    assert_eq!(app.update(Msg::FadeTick, 0), vec![Effect::DestroyLayerSurface(3)]);
}

#[test]
fn a_launch_reads_the_clock() {
    let (mut app, _) = App::init(Args { subcommand: Some(AltTabAction::AltTab) }, 1);
    app.update(Msg::FadeTick, 0);
    assert_eq!(app.fade_phase(), FadePhase::FadingIn);
    let launched = std::time::Instant::now();
    while launched.elapsed().as_millis() < 251 {}
    app.update(Msg::FadeTick, 0);
    assert_eq!(app.fade_phase(), FadePhase::Open);
}

#[test]
fn ticks_are_wanted_during_fades_only() {
    let still = vec![Subscription::Keyboard, Subscription::Backend];
    let fading = vec![Subscription::FadeTick, Subscription::Keyboard, Subscription::Backend];
    let mut app = with_windows(1);
    assert_eq!(app.subscription(), still);
    app.update_at(Msg::Show, 7, 0);
    assert_eq!(app.subscription(), fading);
    app.update_at(Msg::FadeTick, 7, 250 * MS);
    assert_eq!(app.subscription(), still);
    app.update_at(Msg::Hide, 7, 300 * MS);
    assert_eq!(app.subscription(), fading);
}

#[test]
fn the_overlay_centers_the_selected_card() {
    let mut app = with_windows(3);
    app.update_at(Msg::Prev, 0, 0);
    let Overlay::Strip { margins, .. } = app.view_window() else {
        panic!("no strip");
    };
    assert_eq!(margins, Margins { left: 3_726_000 + 3_402_000 + 2 * 160_000, right: 0 });
    app.update_at(Msg::Prev, 0, 0);
    let Overlay::Strip { margins, .. } = app.view_window() else {
        panic!("no strip");
    };
    assert_eq!(margins, Margins { left: 0, right: 3_726_000 + 3_402_000 + 2 * 160_000 });
    app.update_at(Msg::Activate(9), 0, 0);
    let Overlay::Strip { margins, .. } = app.view_window() else {
        panic!("no strip");
    };
    assert_eq!(margins, Margins { left: 0, right: 0 });
}

#[test]
fn selections_that_can_be_laid_out() {
    let mut app = with_windows(2);
    assert!(app.lays_out());
    app.update_at(Msg::Activate(i32::MAX as usize), 0, 0);
    assert!(app.lays_out());
    app.update_at(Msg::Activate(i32::MAX as usize + 1), 0, 0);
    assert!(!app.lays_out());
    app.update_at(Msg::Activate(i32::MAX as usize + 3), 0, 0);
    assert!(app.lays_out());
    assert!(started().lays_out());
}

#[test]
fn the_overlay_without_windows() {
    assert_eq!(started().view_window(), Overlay::NoWindows);
}

#[test]
fn the_overlay_shows_a_card_per_window() {
    let mut app = with_windows(3);
    app.update_at(Msg::Backend(Event::ToplevelCapture(102, Arc::new(vec![0; 4]), 1, 1)), 0, 0);
    let Overlay::Strip { alpha, margins, cards } = app.view_window() else {
        panic!("no strip");
    };
    assert_eq!(alpha, 0);
    assert_eq!(margins, Margins { left: 0, right: 0 });
    let marks: Vec<(usize, u64, bool)> = cards.iter().map(|c| (c.index, c.handle, c.selected)).collect();
    assert_eq!(marks, vec![(0, 100, false), (1, 101, true), (2, 102, false)]);
    assert_eq!(cards[0].preview, Preview::Icon);
    assert_eq!(cards[2].preview, Preview::Screenshot);
    assert_eq!(cards[1].title, "w1");
    assert_eq!(cards[1].app_id, "app.w1");
}

#[test]
fn a_full_round_leads_back() {
    let mut app = with_windows(5);
    let mut seen = Vec::new();
    for _ in 0..5 {
        app.update_at(Msg::Next, 0, 0);
        seen.push(app.selected());
    }
    assert_eq!(seen, vec![2, 3, 4, 0, 1]);
    seen.clear();
    for _ in 0..5 {
        app.update_at(Msg::Prev, 0, 0);
        seen.push(app.selected());
    }
    assert_eq!(seen, vec![0, 4, 3, 2, 1]);
    app.update_at(Msg::Next, 0, 0);
    app.update_at(Msg::Prev, 0, 0);
    assert_eq!(app.selected(), 1);
}

#[test]
fn holding_cycling_and_letting_go() {
    let mut app = with_windows(4);
    app.perform_at(AltTabAction::AltTab, 7, 0);
    assert!(app.update_at(Msg::Next, 8, 10 * MS).is_empty());
    assert!(app.update_at(Msg::FadeTick, 8, 260 * MS).is_empty());
    assert!(app.dbus_activation(Details::ActivateAction("\"AltTab\"".to_string()), 8).is_empty());
    assert!(app.update_at(Msg::Prev, 8, 300 * MS).is_empty());
    let frame = Event::ToplevelCapture(103, Arc::new(vec![1; 4]), 1, 1);
    assert!(app.update_at(Msg::Backend(frame), 8, 302 * MS).is_empty());
    let renamed = Event::UpdateToplevel(103, info("renamed"));
    assert!(app.update_at(Msg::Backend(renamed), 8, 304 * MS).is_empty());
    assert!(app.update_at(Msg::Show, 8, 306 * MS).is_empty());
    assert!(app.update_at(Msg::ModifiersChanged(true), 8, 310 * MS).is_empty());
    let effects = app.update_at(Msg::ModifiersChanged(false), 8, 400 * MS);
    assert_eq!(effects, vec![Effect::Send(Cmd::ActivateToplevel(103))]);
}

#[test]
fn enter_activates_like_letting_go_of_alt() {
    let held = Modifiers { shift: false, alt: true, logo: false };
    let enter = InputEvent::KeyPressed { key: Key::Enter, modifiers: held };
    let mut app = shown(3);
    let effects = app.update_at(on_input(enter).unwrap(), 0, 0);
    assert_eq!(effects, vec![Effect::Send(Cmd::ActivateToplevel(101))]);
    assert_eq!(app.fade_phase(), FadePhase::FadingOut);
}

#[test]
fn keys_on_a_hidden_overlay_send_nothing() {
    let none = Modifiers { shift: false, alt: false, logo: false };
    for key in [Key::Tab, Key::ArrowLeft, Key::ArrowRight, Key::Enter, Key::Escape] {
        let mut app = with_windows(3);
        let message = on_input(InputEvent::KeyPressed { key, modifiers: none }).unwrap();
        assert!(app.update_at(message, 0, 0).is_empty());
        assert!(!app.visible());
    }
}

#[test]
fn the_tick_that_ends_a_fade_keeps_the_opacity() {
    let mut app = shown(1);
    let before = app.fade_alpha_at(400 * MS);
    app.update_at(Msg::FadeTick, 0, 400 * MS);
    assert_eq!(app.fade_alpha_at(400 * MS), before);
    app.update_at(Msg::Hide, 0, 500 * MS);
    let before = app.fade_alpha_at(800 * MS);
    app.update_at(Msg::FadeTick, 0, 800 * MS);
    assert_eq!(app.fade_alpha_at(800 * MS), before);
}

#[test]
fn activations_that_cannot_be_taken_change_nothing() {
    let mut app = with_windows(2);
    app.update_at(Msg::Activate(usize::MAX), 0, 0);
    let forward = || Details::ActivateAction(AltTabAction::AltTab.to_string());
    assert_eq!(app.try_dbus_activation(forward(), 1), None);
    assert!(!app.visible());
    assert_eq!(app.try_dbus_activation(Details::Open, 1), Some(vec![]));
    let back = Details::ActivateAction(AltTabAction::ShiftAltTab.to_string());
    assert_eq!(app.try_dbus_activation(back, 1).unwrap().len(), 3);
    assert_eq!(app.selected(), usize::MAX - 1);
    assert_eq!(app.try_dbus_activation(forward(), 2), Some(vec![]));
    assert_eq!(app.selected(), usize::MAX % 2);
}
