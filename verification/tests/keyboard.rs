use cosmic_altswitcher::input::{on_input, InputEvent, Key, Modifiers};
use cosmic_altswitcher::message::Msg;

const NONE: Modifiers = Modifiers { shift: false, alt: false, logo: false };

fn press(key: Key, shift: bool) -> Option<Msg> {
    on_input(InputEvent::KeyPressed { key, modifiers: Modifiers { shift, ..NONE } })
}

#[test]
fn keys_that_cycle() {
    assert!(matches!(press(Key::Tab, false), Some(Msg::Next)));
    assert!(matches!(press(Key::Tab, true), Some(Msg::Prev)));
    assert!(matches!(press(Key::ArrowLeft, false), Some(Msg::Prev)));
    assert!(matches!(press(Key::ArrowRight, true), Some(Msg::Next)));
}

#[test]
fn keys_that_close() {
    assert!(matches!(press(Key::Enter, false), Some(Msg::ModifiersChanged(false))));
    assert!(matches!(press(Key::Escape, false), Some(Msg::Escape)));
    assert!(press(Key::Other, false).is_none());
    assert!(on_input(InputEvent::Other).is_none());
}

#[test]
fn alt_and_the_logo_key_hold_the_overlay() {
    for (alt, logo, held) in [(true, false, true), (false, true, true), (false, false, false)] {
        let message = on_input(InputEvent::ModifiersChanged(Modifiers { alt, logo, shift: true }));
        let Some(Msg::ModifiersChanged(now_held)) = message else {
            panic!("no message");
        };
        assert_eq!(now_held, held);
    }
}
