//! The session state and its reaction to each compositor event.
//!
//! The state is a record of what has been negotiated so far. Every event
//! is answered by a state change and a list of requests; the transition is
//! given once as a mathematical function and once as executable code that
//! is proved to follow it.

use vstd::prelude::*;
use crate::protocol::{Event, Interface, PixelFormat, Request, SessionError};
use crate::seat::{mask_contains_keyboard, offers_keyboard, EXIT_KEY};

verus! {

/// What the client has obtained from the compositor so far.
#[derive(Clone, Copy, PartialEq, Eq, Debug, Hash, Structural)]
pub struct State {
    /// Cleared when the user asks to leave.
    pub running: bool,
    /// The surface exists; it is created when the compositor global is bound.
    pub base_surface: bool,
    /// The presentation buffer exists; it is created when the shared-memory
    /// global is bound.
    pub buffer: bool,
    /// The window-manager global is bound.
    pub wm_base: bool,
    /// The surface has been wrapped as a toplevel window.
    pub xdg_surface: bool,
    /// The seat global is bound.
    pub seat: bool,
    /// At least one configure event has been acknowledged.
    pub configured: bool,
}

/// Where a session stands in the life of its window. A session moves
/// through these in order and never back; it may skip ahead to `Closed`
/// from anywhere.
#[derive(Clone, Copy, PartialEq, Eq, Debug, Hash, Structural)]
pub enum Phase {
    /// No surface yet.
    Uninitialized,
    /// The surface exists, the window does not.
    CompositorBound,
    /// The surface is wrapped as a window and waits for its first configure
    /// event. Wrapping and the start of the wait are one step.
    AwaitingConfigure,
    /// A configure event has been acknowledged.
    Configured,
    /// The user asked to leave.
    Closed,
}

impl Phase {
    /// The place of a phase in the life of the window.
    pub open spec fn rank(self) -> int {
        match self {
            Phase::Uninitialized => 0,
            Phase::CompositorBound => 1,
            Phase::AwaitingConfigure => 2,
            Phase::Configured => 3,
            Phase::Closed => 4,
        }
    }
}

/// Whether the protocol can express a buffer of `width` by `height` pixels,
/// four bytes each: the length of a row in bytes, the number of rows and the
/// size of the whole in bytes are sent as signed 32-bit integers.
pub open spec fn presentable(width: u32, height: u32) -> bool {
    &&& width * 4 <= i32::MAX
    &&& height <= i32::MAX
    &&& width * height * 4 <= i32::MAX
}

/// The requests that turn the surface into a toplevel window. The commit
/// at the end carries no buffer; it asks for the first configure event.
pub open spec fn wrap_requests() -> Seq<Request> {
    seq![Request::GetXdgSurface, Request::GetToplevel, Request::SetTitle, Request::Commit]
}

/// The requests that show the buffer on the surface.
pub open spec fn present_requests() -> Seq<Request> {
    seq![Request::Attach { x: 0, y: 0 }, Request::Commit]
}

/// The requests that create the presentation buffer: a pool over the whole
/// pixel region, and one buffer that covers the pool.
pub open spec fn buffer_requests(width: u32, height: u32) -> Seq<Request> {
    seq![
        Request::CreatePool { size: (width * height * 4) as i32 },
        Request::CreateBuffer {
            offset: 0,
            width: width as i32,
            height: height as i32,
            stride: (width * 4) as i32,
            format: PixelFormat::Argb8888,
        },
    ]
}

/// The requests that bind a global and put the new object to use at once:
/// the compositor makes the surface, the shared-memory factory makes the
/// buffer.
pub open spec fn claim_requests(
    width: u32,
    height: u32,
    name: u32,
    interface: Interface,
    version: u32,
) -> Seq<Request> {
    seq![Request::Bind { name, interface, version }] + (match interface {
        Interface::Compositor => seq![Request::CreateSurface],
        Interface::Shm => buffer_requests(width, height),
        _ => Seq::empty(),
    })
}

impl State {
    /// The state of a session that has heard nothing yet.
    pub open spec fn initial() -> State {
        State {
            running: true,
            base_surface: false,
            buffer: false,
            wm_base: false,
            xdg_surface: false,
            seat: false,
            configured: false,
        }
    }

    /// What holds of every state a session can reach: the window exists
    /// exactly when both of its prerequisites do, and only a window can
    /// have been configured.
    pub open spec fn wf(self) -> bool {
        &&& self.xdg_surface <==> (self.base_surface && self.wm_base)
        &&& self.configured ==> self.xdg_surface
    }

    /// Where the session stands in the life of its window.
    pub open spec fn phase(self) -> Phase {
        if !self.running {
            Phase::Closed
        } else if self.configured {
            Phase::Configured
        } else if self.xdg_surface {
            Phase::AwaitingConfigure
        } else if self.base_surface {
            Phase::CompositorBound
        } else {
            Phase::Uninitialized
        }
    }

    /// Whether a global of this interface has been bound already.
    pub open spec fn holds(self, interface: Interface) -> bool {
        match interface {
            Interface::Compositor => self.base_surface,
            Interface::Shm => self.buffer,
            Interface::Seat => self.seat,
            Interface::WmBase => self.wm_base,
            Interface::Other => false,
        }
    }

    /// The state once a global of this interface is bound.
    pub open spec fn having(self, interface: Interface) -> State {
        match interface {
            Interface::Compositor => State { base_surface: true, ..self },
            Interface::Shm => State { buffer: true, ..self },
            Interface::Seat => State { seat: true, ..self },
            Interface::WmBase => State { wm_base: true, ..self },
            Interface::Other => self,
        }
    }

    /// Whether the surface can and must be wrapped now: both prerequisites
    /// are present and the window is not.
    pub open spec fn join_ready(self) -> bool {
        self.base_surface && self.wm_base && !self.xdg_surface
    }

    /// The state after the join: the window exists if it was due.
    pub open spec fn joined(self) -> State {
        if self.join_ready() {
            State { xdg_surface: true, ..self }
        } else {
            self
        }
    }

    /// The requests of the join: those that make the window, if it was due.
    pub open spec fn join_requests(self) -> Seq<Request> {
        if self.join_ready() {
            wrap_requests()
        } else {
            Seq::empty()
        }
    }

    /// Why the announcement of a global is refused, if it is.
    pub open spec fn global_refusal(self, width: u32, height: u32, interface: Interface) -> Option<
        SessionError,
    > {
        if self.holds(interface) {
            Some(SessionError::ProtocolViolation)
        } else if interface == Interface::Shm && !presentable(width, height) {
            Some(SessionError::ResourceAllocation)
        } else {
            None
        }
    }

    /// The state after the announcement of a global.
    pub open spec fn after_global(self, width: u32, height: u32, interface: Interface) -> State {
        if !interface.recognized() || self.global_refusal(width, height, interface).is_some() {
            self
        } else {
            self.having(interface).joined()
        }
    }

    /// The requests that answer the announcement of a global: the bind,
    /// what the new object is used for at once, the join, and the
    /// presentation of a buffer that arrives after the first configure.
    pub open spec fn global_requests(
        self,
        width: u32,
        height: u32,
        name: u32,
        interface: Interface,
        version: u32,
    ) -> Seq<Request> {
        if !interface.recognized() || self.global_refusal(width, height, interface).is_some() {
            Seq::empty()
        } else {
            claim_requests(width, height, name, interface, version) + self.having(
                interface,
            ).join_requests() + (if interface == Interface::Shm && self.configured {
                present_requests()
            } else {
                Seq::empty()
            })
        }
    }

    /// Why a configure event is refused, if it is: there is no window to
    /// configure.
    pub open spec fn configure_refusal(self) -> Option<SessionError> {
        if self.xdg_surface {
            None
        } else {
            Some(SessionError::ProtocolViolation)
        }
    }

    /// The state after a configure event.
    pub open spec fn after_configure(self) -> State {
        if self.xdg_surface {
            State { configured: true, ..self }
        } else {
            self
        }
    }

    /// The requests that answer a configure event: one acknowledgement,
    /// then the buffer if there is one.
    pub open spec fn configure_requests(self, serial: u32) -> Seq<Request> {
        if self.xdg_surface {
            seq![Request::AckConfigure { serial }] + (if self.buffer {
                present_requests()
            } else {
                Seq::empty()
            })
        } else {
            Seq::empty()
        }
    }

    /// The state after a key event.
    pub open spec fn after_key(self, key: u32) -> State {
        if key == EXIT_KEY {
            State { running: false, ..self }
        } else {
            self
        }
    }

    /// The requests that answer a capability announcement of the seat.
    pub open spec fn capability_requests(capabilities: u32) -> Seq<Request> {
        if offers_keyboard(capabilities) {
            seq![Request::GetKeyboard]
        } else {
            Seq::empty()
        }
    }

    /// Why an event is refused, if it is. A refused event changes nothing
    /// and is answered by no request.
    pub open spec fn refusal(self, width: u32, height: u32, event: Event) -> Option<SessionError> {
        match event {
            Event::Global { name, interface, version } => self.global_refusal(
                width,
                height,
                interface,
            ),
            Event::Configure { serial } => self.configure_refusal(),
            _ => None,
        }
    }

    /// The state after an event.
    pub open spec fn next(self, width: u32, height: u32, event: Event) -> State {
        match event {
            Event::Global { name, interface, version } => self.after_global(
                width,
                height,
                interface,
            ),
            Event::GlobalRemove { name } => self,
            Event::Configure { serial } => self.after_configure(),
            Event::Close => State { running: false, ..self },
            Event::Ping { serial } => self,
            Event::Capabilities { capabilities } => self,
            Event::Key { key, state } => self.after_key(key),
        }
    }

    /// The requests that answer an event, in the order in which they are
    /// sent.
    pub open spec fn requests(self, width: u32, height: u32, event: Event) -> Seq<Request> {
        match event {
            Event::Global { name, interface, version } => self.global_requests(
                width,
                height,
                name,
                interface,
                version,
            ),
            Event::GlobalRemove { name } => Seq::empty(),
            Event::Configure { serial } => self.configure_requests(serial),
            Event::Close => Seq::empty(),
            Event::Ping { serial } => seq![Request::Pong { serial }],
            Event::Capabilities { capabilities } => Self::capability_requests(capabilities),
            Event::Key { key, state } => Seq::empty(),
        }
    }
}

impl State {
    /// The state of a session that has heard nothing yet.
    pub fn new() -> (state: State)
        ensures
            state == State::initial(),
            state.wf(),
    {
        State {
            running: true,
            base_surface: false,
            buffer: false,
            wm_base: false,
            xdg_surface: false,
            seat: false,
            configured: false,
        }
    }

    /// Where the session stands in the life of its window.
    pub fn current_phase(&self) -> (phase: Phase)
        ensures
            phase == self.phase(),
    {
        if !self.running {
            Phase::Closed
        } else if self.configured {
            Phase::Configured
        } else if self.xdg_surface {
            Phase::AwaitingConfigure
        } else if self.base_surface {
            Phase::CompositorBound
        } else {
            Phase::Uninitialized
        }
    }

    /// Whether a global of this interface has been bound already.
    pub fn has(&self, interface: Interface) -> (bound: bool)
        ensures
            bound == self.holds(interface),
    {
        match interface {
            Interface::Compositor => self.base_surface,
            Interface::Shm => self.buffer,
            Interface::Seat => self.seat,
            Interface::WmBase => self.wm_base,
            Interface::Other => false,
        }
    }

    /// The join: wraps the surface as a toplevel window if both the surface
    /// and the window-manager global are present and the window is not. It
    /// is tried after every bind, so the window is created by whichever of
    /// the two prerequisites arrives last.
    pub fn init_xdg_surface(&mut self, out: &mut Vec<Request>)
        ensures
            *final(self) == old(self).joined(),
            final(out)@ == old(out)@ + old(self).join_requests(),
            old(self).wf() ==> final(self).wf(),
    {
        if self.base_surface && self.wm_base && !self.xdg_surface {
            out.push(Request::GetXdgSurface);
            out.push(Request::GetToplevel);
            out.push(Request::SetTitle);
            out.push(Request::Commit);
            self.xdg_surface = true;
            assert(out@ =~= old(out)@ + wrap_requests());
        } else {
            assert(out@ =~= old(out)@ + Seq::<Request>::empty());
        }
    }

    /// Shows the buffer on the surface.
    fn present(out: &mut Vec<Request>)
        ensures
            final(out)@ == old(out)@ + present_requests(),
    {
        out.push(Request::Attach { x: 0, y: 0 });
        out.push(Request::Commit);
        assert(out@ =~= old(out)@ + present_requests());
    }

    /// Binds a global that is recognized and not yet held, and puts the
    /// new object to use.
    fn claim(
        &mut self,
        width: u32,
        height: u32,
        name: u32,
        interface: Interface,
        version: u32,
        out: &mut Vec<Request>,
    )
        requires
            interface.recognized(),
            interface == Interface::Shm ==> presentable(width, height),
        ensures
            *final(self) == old(self).having(interface),
            final(out)@ == old(out)@ + claim_requests(width, height, name, interface, version),
    {
        out.push(Request::Bind { name, interface, version });
        match interface {
            Interface::Compositor => {
                out.push(Request::CreateSurface);
                self.base_surface = true;
            },
            Interface::Shm => {
                out.push(Request::CreatePool { size: (width * height * 4) as i32 });
                out.push(
                    Request::CreateBuffer {
                        offset: 0,
                        width: width as i32,
                        height: height as i32,
                        stride: (width * 4) as i32,
                        format: PixelFormat::Argb8888,
                    },
                );
                self.buffer = true;
            },
            Interface::Seat => {
                self.seat = true;
            },
            _ => {
                self.wm_base = true;
            },
        }
        assert(out@ =~= old(out)@ + claim_requests(width, height, name, interface, version));
    }

    /// Answers the announcement of a global. A recognized interface is
    /// bound and put to use at once; an interface that is announced a second
    /// time is refused, and so is the shared-memory global when the pixel
    /// region is too large to describe.
    pub fn on_global(
        &mut self,
        width: u32,
        height: u32,
        name: u32,
        interface: Interface,
        version: u32,
        out: &mut Vec<Request>,
    ) -> (result: Result<(), SessionError>)
        ensures
            result == match old(self).global_refusal(width, height, interface) {
                Some(error) => Err::<(), SessionError>(error),
                None => Ok(()),
            },
            *final(self) == old(self).after_global(width, height, interface),
            final(out)@ == old(out)@ + old(self).global_requests(
                width,
                height,
                name,
                interface,
                version,
            ),
            old(self).wf() ==> final(self).wf(),
    {
        proof {
            assert(out@ =~= old(out)@ + Seq::<Request>::empty());
        }
        if !interface.is_recognized() {
            return Ok(());
        }
        if self.has(interface) {
            return Err(SessionError::ProtocolViolation);
        }
        if matches!(interface, Interface::Shm) && !fits(width, height) {
            return Err(SessionError::ResourceAllocation);
        }
        self.claim(width, height, name, interface, version, out);
        self.init_xdg_surface(out);
        let ghost joined = out@;
        if matches!(interface, Interface::Shm) && self.configured {
            Self::present(out);
        }
        proof {
            let claim = claim_requests(width, height, name, interface, version);
            let join = old(self).having(interface).join_requests();
            let shown = if interface == Interface::Shm && old(self).configured {
                present_requests()
            } else {
                Seq::empty()
            };
            assert(out@ =~= joined + shown);
            assert(((old(out)@ + claim) + join) + shown =~= old(out)@ + (claim + join + shown));
        }
        Ok(())
    }

    /// Answers a configure event of the window: acknowledges it by its
    /// serial and, if the buffer exists, shows it. Every configure event is
    /// answered in the same way; one for which no window exists is refused.
    pub fn on_configure(&mut self, serial: u32, out: &mut Vec<Request>) -> (result: Result<
        (),
        SessionError,
    >)
        ensures
            result == match old(self).configure_refusal() {
                Some(error) => Err::<(), SessionError>(error),
                None => Ok(()),
            },
            *final(self) == old(self).after_configure(),
            final(out)@ == old(out)@ + old(self).configure_requests(serial),
            old(self).wf() ==> final(self).wf(),
    {
        if !self.xdg_surface {
            assert(out@ =~= old(out)@ + Seq::<Request>::empty());
            return Err(SessionError::ProtocolViolation);
        }
        out.push(Request::AckConfigure { serial });
        self.configured = true;
        let ghost acked = out@;
        if self.buffer {
            Self::present(out);
        }
        proof {
            let ack = seq![Request::AckConfigure { serial }];
            let shown = if self.buffer {
                present_requests()
            } else {
                Seq::empty()
            };
            assert(acked =~= old(out)@ + ack);
            assert(out@ =~= acked + shown);
            assert((old(out)@ + ack) + shown =~= old(out)@ + (ack + shown));
        }
        Ok(())
    }

    /// Answers a close request of the window: the session stops running.
    pub fn on_close(&mut self)
        ensures
            *final(self) == (State { running: false, ..*old(self) }),
    {
        self.running = false;
    }

    /// Answers a liveness probe of the window manager by echoing its serial.
    pub fn on_ping(&self, serial: u32, out: &mut Vec<Request>)
        ensures
            final(out)@ == old(out)@ + seq![Request::Pong { serial }],
    {
        out.push(Request::Pong { serial });
        assert(out@ =~= old(out)@ + seq![Request::Pong { serial }]);
    }

    /// Answers a capability announcement of the seat: asks for the keyboard
    /// whenever the mask holds the keyboard bit.
    pub fn on_capabilities(&self, capabilities: u32, out: &mut Vec<Request>)
        ensures
            final(out)@ == old(out)@ + State::capability_requests(capabilities),
    {
        if mask_contains_keyboard(capabilities) {
            out.push(Request::GetKeyboard);
        }
        assert(out@ =~= old(out)@ + State::capability_requests(capabilities));
    }

    /// Answers a key event: the exit key stops the session, every other
    /// key changes nothing.
    pub fn on_key(&mut self, key: u32)
        ensures
            *final(self) == old(self).after_key(key),
    {
        if key == EXIT_KEY {
            self.running = false;
        }
    }

    /// Answers one event of the compositor: updates the state and appends
    /// the requests that the event calls for to `out`. A refused event
    /// leaves both as they were.
    pub fn event(&mut self, width: u32, height: u32, event: Event, out: &mut Vec<Request>) -> (result:
        Result<(), SessionError>)
        ensures
            result == match old(self).refusal(width, height, event) {
                Some(error) => Err::<(), SessionError>(error),
                None => Ok(()),
            },
            *final(self) == old(self).next(width, height, event),
            final(out)@ == old(out)@ + old(self).requests(width, height, event),
            old(self).wf() ==> final(self).wf(),
    {
        match event {
            Event::Global { name, interface, version } => self.on_global(
                width,
                height,
                name,
                interface,
                version,
                out,
            ),
            Event::GlobalRemove { name } => {
                assert(out@ =~= old(out)@ + Seq::<Request>::empty());
                Ok(())
            },
            Event::Configure { serial } => self.on_configure(serial, out),
            Event::Close => {
                self.on_close();
                assert(out@ =~= old(out)@ + Seq::<Request>::empty());
                Ok(())
            },
            Event::Ping { serial } => {
                self.on_ping(serial, out);
                Ok(())
            },
            Event::Capabilities { capabilities } => {
                self.on_capabilities(capabilities, out);
                Ok(())
            },
            Event::Key { key, state } => {
                self.on_key(key);
                assert(out@ =~= old(out)@ + Seq::<Request>::empty());
                Ok(())
            },
        }
    }
}

/// Whether the protocol can express a buffer of `width` by `height` pixels,
/// four bytes each.
pub fn fits(width: u32, height: u32) -> (fit: bool)
    ensures
        fit == presentable(width, height),
{
    if width > 0x1fff_ffff || height > 0x7fff_ffff {
        return false;
    }
    assert(width * height <= 0x1fff_ffff * 0x7fff_ffff) by (nonlinear_arith)
        requires
            width <= 0x1fff_ffff,
            height <= 0x7fff_ffff,
    ;
    let bytes: u64 = (width as u64) * (height as u64) * 4;
    bytes <= 0x7fff_ffff
}

} // verus!
