//! The messages exchanged with the compositor, as plain values.

use vstd::prelude::*;

verus! {

/// The global interfaces this client knows how to use. Every other
/// interface name is `Other`.
#[derive(Clone, Copy, PartialEq, Eq, Debug, Hash, Structural)]
pub enum Interface {
    /// `wl_compositor`: produces surfaces.
    Compositor,
    /// `wl_shm`: shared-memory buffer factory.
    Shm,
    /// `wl_seat`: a group of input devices.
    Seat,
    /// `xdg_wm_base`: gives surfaces window semantics.
    WmBase,
    /// Any interface this client has no use for.
    Other,
}

impl Interface {
    /// The interface that a global announces under the given name.
    pub open spec fn named(name: Seq<char>) -> Interface {
        if name == "wl_compositor"@ {
            Interface::Compositor
        } else if name == "wl_shm"@ {
            Interface::Shm
        } else if name == "wl_seat"@ {
            Interface::Seat
        } else if name == "xdg_wm_base"@ {
            Interface::WmBase
        } else {
            Interface::Other
        }
    }

    /// Whether this client binds globals of this interface.
    pub open spec fn recognized(self) -> bool {
        self != Interface::Other
    }

    /// Classifies an interface name as announced by the compositor.
    pub fn from_name(name: &str) -> (interface: Interface)
        ensures
            interface == Interface::named(name@),
    {
        let owned = name.to_owned();
        if owned == "wl_compositor".to_owned() {
            Interface::Compositor
        } else if owned == "wl_shm".to_owned() {
            Interface::Shm
        } else if owned == "wl_seat".to_owned() {
            Interface::Seat
        } else if owned == "xdg_wm_base".to_owned() {
            Interface::WmBase
        } else {
            Interface::Other
        }
    }

    /// Whether this client binds globals of this interface.
    pub fn is_recognized(self) -> (known: bool)
        ensures
            known == self.recognized(),
    {
        match self {
            Interface::Other => false,
            _ => true,
        }
    }
}

/// How the bytes of one pixel of a shared buffer are read.
#[derive(Clone, Copy, PartialEq, Eq, Debug, Hash, Structural)]
pub enum PixelFormat {
    /// 32 bits per pixel, stored as the bytes blue, green, red, alpha.
    Argb8888,
}

/// A message from the compositor.
#[derive(Clone, Copy, PartialEq, Eq, Debug, Hash, Structural)]
pub enum Event {
    /// The registry announces a global object.
    Global { name: u32, interface: Interface, version: u32 },
    /// The registry withdraws a global object.
    GlobalRemove { name: u32 },
    /// The shell surface proposes a new state.
    Configure { serial: u32 },
    /// The user asked for the window to be closed.
    Close,
    /// The window manager asks whether the client is alive.
    Ping { serial: u32 },
    /// The seat tells which kinds of input device it has, as a bitmask.
    Capabilities { capabilities: u32 },
    /// A key was pressed (`state` 1) or released (`state` 0).
    Key { key: u32, state: u32 },
}

impl Event {
    /// The announcement of a global under its interface name.
    pub fn global(name: u32, interface: &str, version: u32) -> (event: Event)
        ensures
            event == (Event::Global { name, interface: Interface::named(interface@), version }),
    {
        Event::Global { name, interface: Interface::from_name(interface), version }
    }
}

/// A message to the compositor.
#[derive(Clone, Copy, PartialEq, Eq, Debug, Hash, Structural)]
pub enum Request {
    /// Ask the registry for a proxy to an announced global.
    Bind { name: u32, interface: Interface, version: u32 },
    /// Ask the compositor object for a surface.
    CreateSurface,
    /// Share a memory region of `size` bytes that already holds the pixels.
    CreatePool { size: i32 },
    /// Describe a buffer inside the shared region.
    CreateBuffer { offset: i32, width: i32, height: i32, stride: i32, format: PixelFormat },
    /// Wrap the surface in a shell surface.
    GetXdgSurface,
    /// Give the shell surface the role of a toplevel window.
    GetToplevel,
    /// Name the window. The title is the program's and not part of the
    /// request.
    SetTitle,
    /// Make the pending surface state current.
    Commit,
    /// Set the buffer as the pending content of the surface.
    Attach { x: i32, y: i32 },
    /// Acknowledge a configure event by its serial.
    AckConfigure { serial: u32 },
    /// Answer a ping by its serial.
    Pong { serial: u32 },
    /// Ask the seat for its keyboard.
    GetKeyboard,
}

/// Why the session cannot go on.
#[derive(Clone, Copy, PartialEq, Eq, Debug, Hash, Structural)]
pub enum SessionError {
    /// The compositor announced an interface twice, or configured a window
    /// that does not exist.
    ProtocolViolation,
    /// The shared pixel region cannot be described to the compositor.
    ResourceAllocation,
}

} // verus!
