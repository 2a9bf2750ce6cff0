use cosmic_altswitcher::backend::{Activation, AppData, Request};
use cosmic_altswitcher::message::{Cmd, Event, ToplevelInfo};
use cosmic_altswitcher::pixels::{
    has_alpha, layout_buffer, layout_fits, needs_byte_swap, pick_format, to_rgba, ShmFormat,
};

const READY: Activation = Activation { known: true, managed: true, seated: true };

fn info() -> ToplevelInfo {
    ToplevelInfo { title: "t".to_string(), app_id: "a".to_string() }
}

fn with_session(handle: u64) -> AppData {
    let mut data = AppData::new();
    data.session_created(handle);
    data
}

#[test]
fn windows_are_activated_when_everything_is_there() {
    let data = AppData::new();
    let command = Cmd::ActivateToplevel(4);
    assert_eq!(data.on_command(command, READY), Some(Request::Activate(4)));
    assert_eq!(data.on_command(command, Activation { known: false, ..READY }), None);
    assert_eq!(data.on_command(command, Activation { managed: false, ..READY }), None);
    assert_eq!(data.on_command(command, Activation { seated: false, ..READY }), None);
}

#[test]
fn a_window_gets_one_session() {
    let mut data = AppData::new();
    let command = Cmd::CaptureToplevel(4);
    assert_eq!(data.start_capture_for(4), Some(Request::CreateSession(4)));
    assert_eq!(data.on_command(command, READY), Some(Request::CreateSession(4)));
    data.session_created(4);
    assert_eq!(data.start_capture_for(4), None);
    assert_eq!(data.on_command(command, READY), Some(Request::CreateSession(4)));
    assert_eq!(data.buffer_created(4, 10, 20, ShmFormat::Abgr8888), Some(Request::Capture(4)));
    assert_eq!(data.on_command(command, READY), Some(Request::Capture(4)));
    data.stopped(None);
    assert_eq!(data.on_command(command, READY), Some(Request::Capture(4)));
    data.stopped(Some(4));
    assert_eq!(data.on_command(command, READY), Some(Request::CreateSession(4)));
}

#[test]
fn windows_are_reported() {
    let mut data = AppData::new();
    let (event, request) = data.new_toplevel(4, Some(info()));
    assert!(matches!(event, Some(Event::NewToplevel(4, known)) if known == info()));
    assert_eq!(request, Some(Request::CreateSession(4)));
    data.session_created(4);
    let (event, request) = data.new_toplevel(4, None);
    assert!(event.is_none());
    assert_eq!(request, None);
    assert!(matches!(data.update_toplevel(4, Some(info())), Some(Event::UpdateToplevel(4, _))));
    assert!(data.update_toplevel(4, None).is_none());
    assert!(matches!(data.toplevel_closed(4), Event::CloseToplevel(4)));
    assert_eq!(data.start_capture_for(4), Some(Request::CreateSession(4)));
}

#[test]
fn buffers_are_planned() {
    let data = with_session(4);
    let formats = vec![ShmFormat::Other(9), ShmFormat::Xrgb8888, ShmFormat::Argb8888];
    let plan = data.init_done(Some(4), 100, 50, &formats).unwrap();
    assert_eq!(plan.handle, 4);
    assert_eq!(plan.format, ShmFormat::Argb8888);
    assert_eq!(plan.layout.stride, 400);
    assert_eq!(plan.layout.pool_size, 40_000);
    assert_eq!((plan.layout.width, plan.layout.height), (100, 50));
}

#[test]
fn buffers_are_not_planned_in_vain() {
    let data = with_session(4);
    let formats = vec![ShmFormat::Abgr8888];
    assert_eq!(data.init_done(None, 100, 50, &formats), None);
    assert_eq!(data.init_done(Some(5), 100, 50, &formats), None);
    assert_eq!(data.init_done(Some(4), 0, 50, &formats), None);
    assert_eq!(data.init_done(Some(4), 100, 0, &formats), None);
    assert_eq!(data.init_done(Some(4), 100, 50, &vec![ShmFormat::Other(1)]), None);
    assert!(data.wants_buffer(Some(4), u32::MAX, u32::MAX, &formats));
    assert!(!data.wants_buffer(Some(4), u32::MAX, 0, &formats));
    assert!(!data.wants_buffer(Some(5), 1, 1, &formats));
}

#[test]
fn buffers_for_windows_without_a_session_are_dropped() {
    let mut data = AppData::new();
    assert_eq!(data.buffer_created(4, 10, 20, ShmFormat::Abgr8888), None);
    assert_eq!(data.start_capture_for(4), Some(Request::CreateSession(4)));
}

#[test]
fn formats_in_the_order_of_preference() {
    let mut offered = vec![
        ShmFormat::Xrgb8888,
        ShmFormat::Argb8888,
        ShmFormat::Xbgr8888,
        ShmFormat::Abgr8888,
    ];
    let mut picked = Vec::new();
    while let Some(format) = pick_format(&offered) {
        picked.push((format, needs_byte_swap(format), has_alpha(format)));
        offered.retain(|other| *other != format);
    }
    assert_eq!(
        picked,
        vec![
            (ShmFormat::Abgr8888, false, true),
            (ShmFormat::Xbgr8888, false, false),
            (ShmFormat::Argb8888, true, true),
            (ShmFormat::Xrgb8888, true, false),
        ]
    );
}

#[test]
fn sizes_that_fit() {
    assert!(layout_fits(1920, 1080));
    assert!(layout_fits(16_383, 16_384));
    assert!(!layout_fits(16_384, 16_384));
    assert!(!layout_fits(0x2000_0000, 1));
    assert!(layout_fits(u32::MAX, 1));
    assert_eq!(layout_buffer(u32::MAX, 1).stride, -4);
    assert_eq!(layout_buffer(u32::MAX, 1).pool_size, usize::MAX - 7);
    assert_eq!(layout_buffer(1920, 1080).pool_size, 16_588_800);
}

#[test]
fn frames_become_rgba() {
    let frame = vec![1, 2, 3, 0, 5, 6, 7, 8, 9, 0];
    assert_eq!(to_rgba(frame.clone(), false, true), vec![1, 2, 3, 255, 5, 6, 7, 8, 9, 0]);
    assert_eq!(to_rgba(frame.clone(), true, true), vec![3, 2, 1, 255, 7, 6, 5, 8, 9, 0]);
    let once = to_rgba(frame.clone(), true, true);
    assert_eq!(to_rgba(once, true, true), to_rgba(frame, false, true));
    assert_eq!(to_rgba(vec![], true, true), Vec::<u8>::new());
}

#[test]
fn padding_becomes_opaque() {
    let frame = vec![10, 20, 30, 127, 1, 2, 3, 0, 9];
    assert_eq!(to_rgba(frame.clone(), true, false), vec![30, 20, 10, 255, 3, 2, 1, 255, 9]);
    assert_eq!(to_rgba(frame, false, false), vec![10, 20, 30, 255, 1, 2, 3, 255, 9]);
}

#[test]
fn alpha_goes_by_the_format() {
    for (format, expected) in [
        (ShmFormat::Xrgb8888, vec![30, 20, 10, 255]),
        (ShmFormat::Argb8888, vec![30, 20, 10, 127]),
        (ShmFormat::Xbgr8888, vec![10, 20, 30, 255]),
        (ShmFormat::Abgr8888, vec![10, 20, 30, 127]),
    ] {
        let mut data = with_session(4);
        data.buffer_created(4, 1, 1, format);
        let Some(Event::ToplevelCapture(4, pixels, 1, 1)) =
            data.ready(Some(4), Some(vec![10, 20, 30, 127]))
        else {
            panic!("no capture");
        };
        assert_eq!(*pixels, expected);
    }
}

#[test]
fn a_session_without_a_buffer_is_replaced() {
    let mut data = with_session(4);
    let command = Cmd::CaptureToplevel(4);
    assert_eq!(data.on_command(command, READY), Some(Request::CreateSession(4)));
    data.session_created(4);
    assert_eq!(data.on_command(command, READY), Some(Request::CreateSession(4)));
    data.buffer_created(4, 1, 1, ShmFormat::Abgr8888);
    assert_eq!(data.on_command(command, READY), Some(Request::Capture(4)));
}

#[test]
fn captured_frames_are_reported() {
    let mut data = with_session(4);
    assert!(data.ready(Some(4), Some(vec![0; 4])).is_none());
    data.buffer_created(4, 1, 2, ShmFormat::Xrgb8888);
    let Some(Event::ToplevelCapture(4, pixels, 1, 2)) =
        data.ready(Some(4), Some(vec![1, 2, 3, 0, 4, 5, 6, 7]))
    else {
        panic!("no capture");
    };
    assert_eq!(*pixels, vec![3, 2, 1, 255, 6, 5, 4, 255]);
    assert!(data.ready(Some(4), None).is_none());
    assert!(data.ready(Some(5), Some(vec![0; 4])).is_none());
    assert!(data.ready(None, Some(vec![0; 4])).is_none());
}
