//! The compositor's side: which windows are being captured, and what is asked of
//! the compositor.

use crate::message::{Cmd, Event, ToplevelInfo};
use crate::pixels::{
    has_alpha, layout_buffer, needs_byte_swap, pick_format, to_rgba, BufferLayout, ShmFormat,
};
#[allow(unused_imports)]
use crate::pixels::{
    best_format, buffer_layout, carries_alpha, fits_pool, is_bgra, law_best_format_is_unique,
    law_formats_are_preferred_in_order, law_pool_holds_two_frames, law_sizes_that_fit, rgba, usable,
};
use std::collections::HashMap;
use std::sync::Arc;
use vstd::prelude::*;

verus! {

broadcast use vstd::std_specs::hash::group_hash_axioms;

/// A capture session of a window.
#[derive(Debug, Clone, Copy, PartialEq, Eq)]
pub struct ToplevelCaptureSession {
    /// The size of the session's buffer, once it has one.
    pub size: Option<(u32, u32)>,
    /// True if pixel bytes are BGRA (need swap to RGBA), false if already RGBA
    pub needs_byte_swap: bool,
    /// True if the pixels say how opaque they are, false if that byte is padding
    pub has_alpha: bool,
}

/// A session as it begins.
pub open spec fn new_session() -> ToplevelCaptureSession {
    ToplevelCaptureSession { size: None, needs_byte_swap: false, has_alpha: false }
}

/// What the compositor is asked to do.
#[derive(Debug, Clone, Copy, PartialEq, Eq, Structural)]
pub enum Request {
    /// Bring this window to the front.
    Activate(u64),
    /// Create a capture session for this window.
    CreateSession(u64),
    /// Capture a frame into the buffer of this window's session.
    Capture(u64),
}

/// What can be used to activate a window.
#[derive(Debug, Clone, Copy, PartialEq, Eq, Structural)]
pub struct Activation {
    /// The compositor has told of the window.
    pub known: bool,
    /// The window can be managed.
    pub managed: bool,
    /// There is a seat to activate it on.
    pub seated: bool,
}

/// The buffer that a session is to get.
#[derive(Debug, Clone, Copy, PartialEq, Eq, Structural)]
pub struct BufferPlan {
    pub handle: u64,
    pub layout: BufferLayout,
    pub format: ShmFormat,
}

/// The sessions of the windows that are being captured.
pub type Captures = Map<u64, ToplevelCaptureSession>;

/// A session is to be created for a window that has none.
pub open spec fn session_request(captures: Captures, handle: u64) -> Option<Request> {
    if captures.contains_key(handle) {
        None
    } else {
        Some(Request::CreateSession(handle))
    }
}

/// A window whose session has a buffer is captured again. Otherwise it gets a new
/// session, in place of the one that has no buffer if there is one.
pub open spec fn capture_request(captures: Captures, handle: u64) -> Request {
    if captures.contains_key(handle) && captures[handle].size is Some {
        Request::Capture(handle)
    } else {
        Request::CreateSession(handle)
    }
}

/// What a command asks of the compositor.
pub open spec fn command_request(
    captures: Captures,
    command: Cmd,
    activation: Activation,
) -> Option<Request> {
    match command {
        Cmd::ActivateToplevel(handle) => if activation.known && activation.managed
            && activation.seated {
            Some(Request::Activate(handle))
        } else {
            None
        },
        Cmd::CaptureToplevel(handle) => Some(capture_request(captures, handle)),
    }
}

/// A session is owed a buffer for frames of this size: it exists, the frames have
/// pixels, and one of the formats can be used.
pub open spec fn wants_buffer(
    captures: Captures,
    handle: Option<u64>,
    width: u32,
    height: u32,
    formats: Seq<ShmFormat>,
) -> bool {
    &&& handle is Some
    &&& captures.contains_key(handle->0)
    &&& width != 0
    &&& height != 0
    &&& exists|format: ShmFormat| #[trigger] formats.contains(format) && usable(format)
}

/// The state of the compositor's side.
#[derive(Debug)]
pub struct AppData {
    captures: HashMap<u64, ToplevelCaptureSession>,
}

impl View for AppData {
    type V = Captures;

    closed spec fn view(&self) -> Captures {
        self.captures@
    }
}

impl AppData {
    /// Begins without captures.
    pub fn new() -> (data: AppData)
        ensures
            data@ == Captures::empty(),
    {
        AppData { captures: HashMap::new() }
    }

    /// Asks for a capture session, unless the window has one.
    pub fn start_capture_for(&self, handle: u64) -> (request: Option<Request>)
        ensures
            request == session_request(self@, handle),
    {
        if self.captures.contains_key(&handle) {
            return None;
        }
        Some(Request::CreateSession(handle))
    }

    /// Notes that a session was created. It takes the place of the one that the
    /// window had.
    pub fn session_created(&mut self, handle: u64)
        ensures
            final(self)@ == old(self)@.insert(handle, new_session()),
    {
        self.captures.insert(
            handle,
            ToplevelCaptureSession { size: None, needs_byte_swap: false, has_alpha: false },
        );
    }

    /// Decides what a command asks of the compositor.
    pub fn on_command(&self, command: Cmd, activation: Activation) -> (request: Option<Request>)
        ensures
            request == command_request(self@, command, activation),
    {
        match command {
            Cmd::ActivateToplevel(handle) => {
                if activation.known && activation.managed && activation.seated {
                    Some(Request::Activate(handle))
                } else {
                    None
                }
            },
            Cmd::CaptureToplevel(handle) => {
                let buffered: bool = match self.captures.get(&handle) {
                    Some(session) => session.size.is_some(),
                    None => false,
                };
                if buffered {
                    Some(Request::Capture(handle))
                } else {
                    Some(Request::CreateSession(handle))
                }
            },
        }
    }

    /// A window has appeared. It is reported if anything is known of it, and it is
    /// captured.
    pub fn new_toplevel(&self, handle: u64, info: Option<ToplevelInfo>) -> (reaction: (
        Option<Event>,
        Option<Request>,
    ))
        ensures
            reaction.0 == (match info {
                Some(known) => Some(Event::NewToplevel(handle, known)),
                None => None,
            }),
            reaction.1 == session_request(self@, handle),
    {
        let event = match info {
            Some(known) => Some(Event::NewToplevel(handle, known)),
            None => None,
        };
        (event, self.start_capture_for(handle))
    }

    /// What is known of a window has changed. It is reported if anything is.
    pub fn update_toplevel(&self, handle: u64, info: Option<ToplevelInfo>) -> (event: Option<Event>)
        ensures
            event == (match info {
                Some(known) => Some(Event::UpdateToplevel(handle, known)),
                None => None,
            }),
    {
        match info {
            Some(known) => Some(Event::UpdateToplevel(handle, known)),
            None => None,
        }
    }

    /// A window has closed: its session goes, and it is reported.
    pub fn toplevel_closed(&mut self, handle: u64) -> (event: Event)
        ensures
            final(self)@ == old(self)@.remove(handle),
            event == Event::CloseToplevel(handle),
    {
        self.captures.remove(&handle);
        Event::CloseToplevel(handle)
    }

    /// Whether a session is owed a buffer for frames of this size.
    pub fn wants_buffer(
        &self,
        handle: Option<u64>,
        width: u32,
        height: u32,
        formats: &Vec<ShmFormat>,
    ) -> (wanted: bool)
        ensures
            wanted == wants_buffer(self@, handle, width, height, formats@),
    {
        match handle {
            Some(known) => width != 0 && height != 0 && pick_format(formats).is_some()
                && self.captures.contains_key(&known),
            None => false,
        }
    }

    /// The compositor has told the size and the formats of a session's frames.
    /// Plans the session's buffer.
    pub fn init_done(
        &self,
        handle: Option<u64>,
        width: u32,
        height: u32,
        formats: &Vec<ShmFormat>,
    ) -> (plan: Option<BufferPlan>)
        requires
            wants_buffer(self@, handle, width, height, formats@) ==> fits_pool(width, height),
        ensures
            match plan {
                Some(buffer) => {
                    &&& wants_buffer(self@, handle, width, height, formats@)
                    &&& handle == Some(buffer.handle)
                    &&& buffer.layout == buffer_layout(width, height)
                    &&& best_format(formats@, buffer.format)
                },
                None => !wants_buffer(self@, handle, width, height, formats@),
            },
    {
        let Some(handle) = handle else {
            return None;
        };
        if width == 0 || height == 0 {
            return None;
        }
        let Some(format) = pick_format(formats) else {
            return None;
        };
        if !self.captures.contains_key(&handle) {
            return None;
        }
        Some(BufferPlan { handle, layout: layout_buffer(width, height), format })
    }

    /// Notes that a session got its buffer, and asks for a capture into it.
    pub fn buffer_created(
        &mut self,
        handle: u64,
        width: u32,
        height: u32,
        format: ShmFormat,
    ) -> (request: Option<Request>)
        ensures
            old(self)@.contains_key(handle) ==> {
                &&& final(self)@ == old(self)@.insert(
                    handle,
                    (ToplevelCaptureSession {
                        size: Some((width, height)),
                        needs_byte_swap: is_bgra(format),
                        has_alpha: carries_alpha(format),
                    }),
                )
                &&& request == Some(Request::Capture(handle))
            },
            !old(self)@.contains_key(handle) ==> final(self)@ == old(self)@ && request is None,
    {
        if !self.captures.contains_key(&handle) {
            return None;
        }
        self.captures.insert(
            handle,
            ToplevelCaptureSession {
                size: Some((width, height)),
                needs_byte_swap: needs_byte_swap(format),
                has_alpha: has_alpha(format),
            },
        );
        Some(Request::Capture(handle))
    }

    /// A session has stopped.
    pub fn stopped(&mut self, handle: Option<u64>)
        ensures
            final(self)@ == (match handle {
                Some(known) => old(self)@.remove(known),
                None => old(self)@,
            }),
    {
        if let Some(known) = handle {
            self.captures.remove(&known);
        }
    }

    /// A frame has been captured. Reports it as RGBA, if its session has a buffer
    /// and the buffer could be read.
    pub fn ready(&self, handle: Option<u64>, canvas: Option<Vec<u8>>) -> (event: Option<Event>)
        ensures
            match (handle, canvas) {
                (Some(known), Some(frame)) => if self@.contains_key(known)
                    && self@[known].size is Some {
                    &&& event is Some
                    &&& event->0 matches Event::ToplevelCapture(h, pixels, width, height)
                    &&& h == known
                    &&& pixels@ == rgba(
                        frame@,
                        self@[known].needs_byte_swap,
                        self@[known].has_alpha,
                    )
                    &&& Some((width, height)) == self@[known].size
                } else {
                    event is None
                },
                _ => event is None,
            },
    {
        let Some(handle) = handle else {
            return None;
        };
        let Some(session) = self.captures.get(&handle) else {
            return None;
        };
        let Some((width, height)) = session.size else {
            return None;
        };
        let Some(frame) = canvas else {
            return None;
        };
        let pixels = to_rgba(frame, session.needs_byte_swap, session.has_alpha);
        Some(Event::ToplevelCapture(handle, Arc::new(pixels), width, height))
    }
}

/// A window has at most one session: appearing again it is asked none, and one
/// that a capture asks for takes the place of the old one.
pub proof fn law_one_session_per_window(
    captures: Captures,
    handle: u64,
    session: ToplevelCaptureSession,
)
    ensures
        session_request(captures.insert(handle, session), handle) is None,
        captures.insert(handle, session).insert(handle, new_session()) == captures.insert(
            handle,
            new_session(),
        ),
{
    assert(captures.insert(handle, session).insert(handle, new_session()) =~= captures.insert(
        handle,
        new_session(),
    ));
}

/// A session that has its buffer is captured again on every request. A window
/// that has no session, or one without a buffer, gets a new session, so that no
/// request goes unanswered.
pub proof fn law_capture_follows_the_session(
    captures: Captures,
    handle: u64,
    session: ToplevelCaptureSession,
)
    ensures
        capture_request(captures.insert(handle, session), handle) == (if session.size is Some {
            Request::Capture(handle)
        } else {
            Request::CreateSession(handle)
        }),
        capture_request(captures.insert(handle, new_session()), handle) == Request::CreateSession(
            handle,
        ),
        capture_request(captures.remove(handle), handle) == Request::CreateSession(handle),
{
}

/// Whatever is captured, a window that is known and managed is brought to the front
/// if there is a seat, that very window, and otherwise nothing is asked for.
pub proof fn law_windows_are_activated_whatever_is_captured(
    captures: Captures,
    others: Captures,
    handle: u64,
    activation: Activation,
)
    ensures
        command_request(
            captures,
            Cmd::ActivateToplevel(handle),
            Activation { known: true, managed: true, seated: true },
        ) == Some(Request::Activate(handle)),
        !activation.known || !activation.managed || !activation.seated ==> command_request(
            captures,
            Cmd::ActivateToplevel(handle),
            activation,
        ) is None,
        command_request(captures, Cmd::ActivateToplevel(handle), activation) == command_request(
            others,
            Cmd::ActivateToplevel(handle),
            activation,
        ),
{
}

/// A command to capture a window is always answered, for that very window, whether
/// it could be activated or not, and whatever the other windows' sessions are: with
/// a capture if its session has a buffer, with a new session if its session has
/// none, and with a new session if it has no session.
pub proof fn law_captures_are_answered_whatever_else_is_captured(
    captures: Captures,
    handle: u64,
    session: ToplevelCaptureSession,
    width: u32,
    height: u32,
    activation: Activation,
)
    ensures
        ({
            let buffered = captures.insert(
                handle,
                ToplevelCaptureSession { size: Some((width, height)), ..session },
            );
            let waiting = captures.insert(handle, ToplevelCaptureSession { size: None, ..session });
            let none = captures.remove(handle);
            let command = Cmd::CaptureToplevel(handle);
            &&& command_request(buffered, command, activation) == Some(Request::Capture(handle))
            &&& command_request(waiting, command, activation) == Some(
                Request::CreateSession(handle),
            )
            &&& command_request(none, command, activation) == Some(Request::CreateSession(handle))
        }),
{
}

/// A window that appears is asked a session exactly if it has none, whatever its
/// session would be and whatever the other windows' sessions are. A session begins
/// without a buffer.
pub proof fn law_windows_that_appear_get_a_session(
    captures: Captures,
    handle: u64,
    session: ToplevelCaptureSession,
)
    ensures
        session_request(captures.remove(handle), handle) == Some(Request::CreateSession(handle)),
        session_request(captures.insert(handle, session), handle) is None,
        new_session().size is None,
{
}

/// A session gets a buffer for every size that is not empty, as soon as one of the
/// four formats is offered, wherever in the list it stands. The size plays no other
/// part, and neither do the other sessions.
pub proof fn law_sessions_get_buffers_of_every_size(
    captures: Captures,
    handle: u64,
    session: ToplevelCaptureSession,
    width: u32,
    height: u32,
    formats: Seq<ShmFormat>,
    format: ShmFormat,
)
    requires
        width > 0,
        height > 0,
        formats.contains(format),
        format == ShmFormat::Abgr8888 || format == ShmFormat::Xbgr8888 || format
            == ShmFormat::Argb8888 || format == ShmFormat::Xrgb8888,
    ensures
        wants_buffer(captures.insert(handle, session), Some(handle), width, height, formats),
{
    assert(usable(format));
}

/// No buffer is wanted for an empty frame, for a window without a session, for no
/// window, or where none of the four formats is offered.
pub proof fn law_no_buffers_in_vain(
    captures: Captures,
    handle: Option<u64>,
    width: u32,
    height: u32,
    formats: Seq<ShmFormat>,
)
    ensures
        !wants_buffer(captures, handle, 0, height, formats),
        !wants_buffer(captures, handle, width, 0, formats),
        !wants_buffer(captures, None, width, height, formats),
        handle matches Some(known) ==> !wants_buffer(
            captures.remove(known),
            handle,
            width,
            height,
            formats,
        ),
        !formats.contains(ShmFormat::Abgr8888) && !formats.contains(ShmFormat::Xbgr8888)
            && !formats.contains(ShmFormat::Argb8888) && !formats.contains(ShmFormat::Xrgb8888)
            ==> !wants_buffer(captures, handle, width, height, formats),
{
}

/// A captured frame is reported for its own window, in the size of its session's
/// buffer, byte for byte as long as it was. No frame is reported without a session,
/// without a buffer, or if it could not be read.
pub proof fn law_frames_are_reported_for_their_window(
    data: AppData,
    handle: Option<u64>,
    canvas: Option<Vec<u8>>,
    event: Option<Event>,
)
    requires
        call_ensures(AppData::ready, (&data, handle, canvas), event),
    ensures
        event is Some <==> handle is Some && canvas is Some && data@.contains_key(handle->0)
            && data@[handle->0].size is Some,
        event matches Some(report) ==> {
            &&& report matches Event::ToplevelCapture(window, pixels, width, height)
            &&& handle == Some(window)
            &&& data@[window].size == Some((width, height))
            &&& pixels@.len() == canvas->0@.len()
        },
{
}

/// A window is reported as it is known, if it is, when it appears and when it
/// changes.
pub proof fn law_windows_are_reported_as_known(
    data: AppData,
    handle: u64,
    info: Option<ToplevelInfo>,
    appeared: (Option<Event>, Option<Request>),
    changed: Option<Event>,
)
    requires
        call_ensures(AppData::new_toplevel, (&data, handle, info), appeared),
        call_ensures(AppData::update_toplevel, (&data, handle, info), changed),
    ensures
        info is None ==> appeared.0 is None && changed is None,
        info matches Some(known) ==> appeared.0 == Some(Event::NewToplevel(handle, known))
            && changed == Some(Event::UpdateToplevel(handle, known)),
        appeared.1 is None <==> data@.contains_key(handle),
        appeared.1 is Some ==> appeared.1 == Some(Request::CreateSession(handle)),
{
}

/// A buffer is planned for every session that can have one, for that very session and
/// in the size of its frames, and in the first of the formats that is offered.
pub proof fn law_buffers_are_planned_for_their_session(
    data: AppData,
    handle: u64,
    width: u32,
    height: u32,
    formats: Vec<ShmFormat>,
    plan: Option<BufferPlan>,
)
    requires
        call_ensures(AppData::init_done, (&data, Some(handle), width, height, &formats), plan),
        data@.contains_key(handle),
        0 < width <= 0x7fff_ffff,
        0 < height <= 0x7fff_ffff,
        8 * (width * height) <= 0x7fff_ffff,
        formats@.contains(ShmFormat::Abgr8888),
    ensures
        plan is Some,
        plan->0.handle == handle,
        plan->0.format == ShmFormat::Abgr8888,
        plan->0.layout.width == width,
        plan->0.layout.height == height,
        plan->0.layout.stride == 4 * width,
        plan->0.layout.pool_size == 8 * (width * height),
{
    law_sessions_get_buffers_of_every_size(
        data@,
        handle,
        data@[handle],
        width,
        height,
        formats@,
        ShmFormat::Abgr8888,
    );
    assert(data@.insert(handle, data@[handle]) =~= data@);
    law_formats_are_preferred_in_order(formats@);
    law_best_format_is_unique(formats@, plan->0.format, ShmFormat::Abgr8888);
    law_sizes_that_fit(width, height);
    law_pool_holds_two_frames(width, height);
    assert(2 * (4 * width * height) == 8 * (width * height)) by (nonlinear_arith);
}

} // verus!
