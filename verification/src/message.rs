//! What the switcher is told, and what it asks for.

use std::sync::Arc;
use vstd::prelude::*;

verus! {

/// What the compositor says of a window.
#[derive(Debug, Clone, PartialEq, Eq)]
pub struct ToplevelInfo {
    pub title: String,
    pub app_id: String,
}

/// The texts of a [`ToplevelInfo`].
pub struct ToplevelInfoView {
    pub title: Seq<char>,
    pub app_id: Seq<char>,
}

impl View for ToplevelInfo {
    type V = ToplevelInfoView;

    open spec fn view(&self) -> ToplevelInfoView {
        ToplevelInfoView { title: self.title@, app_id: self.app_id@ }
    }
}

/// What the compositor's side reports. Windows are known by number.
#[derive(Debug, Clone)]
pub enum Event {
    /// Commands can be sent from now on.
    CmdSender,
    NewToplevel(u64, ToplevelInfo),
    UpdateToplevel(u64, ToplevelInfo),
    CloseToplevel(u64),
    /// A captured screenshot for a toplevel: (handle, rgba_pixels, width, height)
    ToplevelCapture(u64, Arc<Vec<u8>>, u32, u32),
}

/// What the compositor's side is asked to do.
#[derive(Debug, Clone, Copy, PartialEq, Eq, Structural)]
pub enum Cmd {
    ActivateToplevel(u64),
    /// Request a capture of the given toplevel
    CaptureToplevel(u64),
}

/// What the switcher reacts to.
#[derive(Debug, Clone)]
pub enum Msg {
    Next,
    Prev,
    /// Whether Alt (or the logo key) is held now.
    ModifiersChanged(bool),
    Escape,
    /// A click on the thumbnail with this index.
    Activate(usize),
    Backend(Event),
    Show,
    Hide,
    FadeTick,
    /// A notice of the windowing toolkit, which the switcher ignores.
    Surface,
}

/// How a running instance is activated from outside.
#[derive(Debug, Clone)]
pub enum Details {
    Activate,
    /// An action, as the text that carries it.
    ActivateAction(String),
    Open,
}

/// What the switcher asks the program around it to do, in the order in which it
/// is listed. Overlay surfaces are known by number.
#[derive(Debug, Clone, Copy, PartialEq, Eq, Structural)]
pub enum Effect {
    /// Send a command to the compositor's side.
    Send(Cmd),
    /// Create the overlay surface, under this number.
    GetLayerSurface(u64),
    /// Destroy the overlay surface with this number.
    DestroyLayerSurface(u64),
}

} // verus!
