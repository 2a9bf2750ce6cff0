//! What the keys mean.

use crate::message::Msg;
use vstd::prelude::*;

verus! {

/// The keys that mean something to the switcher.
#[derive(Debug, Clone, Copy, PartialEq, Eq, Structural)]
pub enum Key {
    Tab,
    ArrowLeft,
    ArrowRight,
    Enter,
    Escape,
    Other,
}

/// The modifier keys that are held.
#[derive(Debug, Clone, Copy, PartialEq, Eq, Structural)]
pub struct Modifiers {
    pub shift: bool,
    pub alt: bool,
    pub logo: bool,
}

/// What happens on the keyboard, and anything else that may happen.
#[derive(Debug, Clone, Copy, PartialEq, Eq, Structural)]
pub enum InputEvent {
    KeyPressed { key: Key, modifiers: Modifiers },
    ModifiersChanged(Modifiers),
    Other,
}

/// What an event asks of the switcher. Tab and the right arrow go forward, Tab
/// with Shift and the left arrow go back, Escape cancels, and Enter counts as
/// letting go of Alt. The logo key counts as Alt.
pub open spec fn message_for(event: InputEvent) -> Option<Msg> {
    match event {
        InputEvent::KeyPressed { key, modifiers } => match key {
            Key::Tab => Some(
                if modifiers.shift {
                    Msg::Prev
                } else {
                    Msg::Next
                },
            ),
            Key::ArrowLeft => Some(Msg::Prev),
            Key::ArrowRight => Some(Msg::Next),
            Key::Enter => Some(Msg::ModifiersChanged(false)),
            Key::Escape => Some(Msg::Escape),
            Key::Other => None,
        },
        InputEvent::ModifiersChanged(modifiers) => Some(
            Msg::ModifiersChanged(modifiers.alt || modifiers.logo),
        ),
        InputEvent::Other => None,
    }
}

/// Turns an event into a message for the switcher.
pub fn on_input(event: InputEvent) -> (message: Option<Msg>)
    ensures
        message == message_for(event),
{
    match event {
        InputEvent::KeyPressed { key: Key::Tab, modifiers } => {
            if modifiers.shift {
                Some(Msg::Prev)
            } else {
                Some(Msg::Next)
            }
        },
        InputEvent::KeyPressed { key: Key::ArrowLeft, .. } => Some(Msg::Prev),
        InputEvent::KeyPressed { key: Key::ArrowRight, .. } => Some(Msg::Next),
        InputEvent::KeyPressed { key: Key::Enter, .. } => Some(Msg::ModifiersChanged(false)),
        InputEvent::KeyPressed { key: Key::Escape, .. } => Some(Msg::Escape),
        InputEvent::ModifiersChanged(modifiers) => {
            Some(Msg::ModifiersChanged(modifiers.alt || modifiers.logo))
        },
        _ => None,
    }
}

/// Shift alone says which way Tab goes, whatever else is held: forward without it,
/// back with it.
pub proof fn law_shift_turns_tab_round(alt: bool, logo: bool)
    ensures
        message_for(
            InputEvent::KeyPressed {
                key: Key::Tab,
                modifiers: Modifiers { shift: false, alt, logo },
            },
        ) == Some(Msg::Next),
        message_for(
            InputEvent::KeyPressed {
                key: Key::Tab,
                modifiers: Modifiers { shift: true, alt, logo },
            },
        ) == Some(Msg::Prev),
{
}

/// The other keys mean the same whatever is held: the right arrow goes forward, the
/// left arrow back, Enter lets go of Alt, Escape cancels, and any other key means
/// nothing.
pub proof fn law_keys_mean_the_same_whatever_is_held(modifiers: Modifiers)
    ensures
        message_for(InputEvent::KeyPressed { key: Key::ArrowRight, modifiers }) == Some(Msg::Next),
        message_for(InputEvent::KeyPressed { key: Key::ArrowLeft, modifiers }) == Some(Msg::Prev),
        message_for(InputEvent::KeyPressed { key: Key::Enter, modifiers }) == Some(
            Msg::ModifiersChanged(false),
        ),
        message_for(InputEvent::KeyPressed { key: Key::Escape, modifiers }) == Some(Msg::Escape),
        message_for(InputEvent::KeyPressed { key: Key::Other, modifiers }) is None,
        message_for(InputEvent::Other) is None,
{
}

/// Alt counts as held while Alt or the logo key is down, and as let go of when both
/// are up. Shift plays no part.
pub proof fn law_alt_or_logo_holds(shift: bool, other: bool)
    ensures
        message_for(
            InputEvent::ModifiersChanged(Modifiers { shift, alt: true, logo: other }),
        ) == Some(Msg::ModifiersChanged(true)),
        message_for(
            InputEvent::ModifiersChanged(Modifiers { shift, alt: other, logo: true }),
        ) == Some(Msg::ModifiersChanged(true)),
        message_for(
            InputEvent::ModifiersChanged(Modifiers { shift, alt: false, logo: false }),
        ) == Some(Msg::ModifiersChanged(false)),
{
}

} // verus!
