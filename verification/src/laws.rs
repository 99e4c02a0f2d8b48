//! What holds of every session, proved from the transition function.

use vstd::prelude::*;
use crate::client::{play, play_all, Trace};
use crate::protocol::{Event, Interface, Request};
use crate::seat::EXIT_KEY;
use crate::session::{buffer_requests, claim_requests, present_requests, presentable, State};
use crate::tally::{
    acknowledging,
    binding,
    binds,
    count,
    lemma_count_answers,
    lemma_count_concat,
    lemma_count_parts,
    lemma_tally_answers,
    lemma_tally_concat,
    lemma_tally_parts,
    tally,
};

verus! {

/// Whether the event announces a global of the given interface.
pub open spec fn announces(event: Event, interface: Interface) -> bool {
    match event {
        Event::Global { name, interface: announced, version } => announced == interface,
        _ => false,
    }
}

/// How many of the events are configure events.
pub open spec fn configures(events: Seq<Event>) -> nat
    decreases events.len(),
{
    if events.len() == 0 {
        0
    } else {
        configures(events.drop_last()) + if events.last() is Configure {
            1nat
        } else {
            0nat
        }
    }
}

/// A session starts in a well-formed state, and no event leads out of the
/// well-formed states.
pub proof fn well_formedness_is_kept(state: State, width: u32, height: u32, event: Event)
    requires
        state.wf(),
    ensures
        State::initial().wf(),
        state.next(width, height, event).wf(),
{
}

/// Neither a batch nor a run of batches leads out of the well-formed
/// states.
pub proof fn well_formedness_is_kept_in_a_run(
    state: State,
    width: u32,
    height: u32,
    batches: Seq<Seq<Event>>,
    events: Seq<Event>,
)
    requires
        state.wf(),
    ensures
        play(state, width, height, events).state.wf(),
        play_all(state, width, height, batches).state.wf(),
{
    window_is_made_once(state, width, height, events);
    window_is_made_once_in_a_run(state, width, height, batches);
}

/// The window is made by the event that completes its prerequisites, and
/// by no other: the answer to an event asks for the shell surface exactly
/// when the window did not exist before the event and does after it, and
/// after every event the window exists if and only if both the surface and
/// the window-manager global do. A window that exists stays.
pub proof fn window_is_made_when_joined(state: State, width: u32, height: u32, event: Event)
    requires
        state.wf(),
    ensures
        ({
            let next = state.next(width, height, event);
            let made = count(state.requests(width, height, event), Request::GetXdgSurface);
            &&& made == if !state.xdg_surface && next.xdg_surface {
                1nat
            } else {
                0nat
            }
            &&& next.xdg_surface == (next.base_surface && next.wm_base)
            &&& state.xdg_surface ==> next.xdg_surface
        }),
{
    lemma_count_answers(state, width, height, event, Request::GetXdgSurface);
    match event {
        Event::Global { name, interface, version } => {
            lemma_count_parts(width, height, name, interface, version, Request::GetXdgSurface);
        },
        _ => {
            lemma_count_parts(width, height, 0, Interface::Other, 0, Request::GetXdgSurface);
        },
    }
}

/// The order in which the compositor global and the window-manager global
/// are announced does not matter: either way neither announcement is
/// refused, the first one makes no window, the second one makes it exactly
/// once, and the state reached is the same.
pub proof fn join_order_is_irrelevant(
    state: State,
    width: u32,
    height: u32,
    compositor: (u32, u32),
    shell: (u32, u32),
)
    requires
        state.wf(),
        !state.base_surface,
        !state.wm_base,
    ensures
        ({
            let surface_source = Event::Global {
                name: compositor.0,
                interface: Interface::Compositor,
                version: compositor.1,
            };
            let window_source = Event::Global {
                name: shell.0,
                interface: Interface::WmBase,
                version: shell.1,
            };
            let one = state.next(width, height, surface_source);
            let other = state.next(width, height, window_source);
            &&& state.refusal(width, height, surface_source).is_none()
            &&& state.refusal(width, height, window_source).is_none()
            &&& one.refusal(width, height, window_source).is_none()
            &&& other.refusal(width, height, surface_source).is_none()
            &&& !one.xdg_surface
            &&& !other.xdg_surface
            &&& count(state.requests(width, height, surface_source), Request::GetXdgSurface) == 0
            &&& count(state.requests(width, height, window_source), Request::GetXdgSurface) == 0
            &&& count(one.requests(width, height, window_source), Request::GetXdgSurface) == 1
            &&& count(other.requests(width, height, surface_source), Request::GetXdgSurface) == 1
            &&& one.next(width, height, window_source).xdg_surface
            &&& one.next(width, height, window_source) == other.next(width, height, surface_source)
        }),
{
    let surface_source = Event::Global {
        name: compositor.0,
        interface: Interface::Compositor,
        version: compositor.1,
    };
    let window_source = Event::Global {
        name: shell.0,
        interface: Interface::WmBase,
        version: shell.1,
    };
    let one = state.next(width, height, surface_source);
    let other = state.next(width, height, window_source);
    window_is_made_when_joined(state, width, height, surface_source);
    window_is_made_when_joined(state, width, height, window_source);
    window_is_made_when_joined(one, width, height, window_source);
    window_is_made_when_joined(other, width, height, surface_source);
}

/// However the events of a batch are interleaved, the window is made at
/// most once: among all the requests of a play the shell surface is asked
/// for once if the window came to exist during the play, and never
/// otherwise. The state stays well formed, and a window that exists stays.
pub proof fn window_is_made_once(state: State, width: u32, height: u32, events: Seq<Event>)
    requires
        state.wf(),
    ensures
        ({
            let trace = play(state, width, height, events);
            &&& trace.state.wf()
            &&& state.xdg_surface ==> trace.state.xdg_surface
            &&& count(trace.requests, Request::GetXdgSurface) == if !state.xdg_surface
                && trace.state.xdg_surface {
                1nat
            } else {
                0nat
            }
        }),
    decreases events.len(),
{
    if events.len() > 0 {
        let before = play(state, width, height, events.drop_last());
        window_is_made_once(state, width, height, events.drop_last());
        if before.error.is_none() {
            window_is_made_when_joined(before.state, width, height, events.last());
            lemma_count_concat(
                before.requests,
                before.state.requests(width, height, events.last()),
                Request::GetXdgSurface,
            );
        }
    }
}

/// The same over a whole run of batches: the window is made at most once,
/// and exactly once if it exists at the end.
pub proof fn window_is_made_once_in_a_run(
    state: State,
    width: u32,
    height: u32,
    batches: Seq<Seq<Event>>,
)
    requires
        state.wf(),
    ensures
        ({
            let trace = play_all(state, width, height, batches);
            &&& trace.state.wf()
            &&& state.xdg_surface ==> trace.state.xdg_surface
            &&& count(trace.requests, Request::GetXdgSurface) == if !state.xdg_surface
                && trace.state.xdg_surface {
                1nat
            } else {
                0nat
            }
        }),
    decreases batches.len(),
{
    if batches.len() > 0 {
        let before = play_all(state, width, height, batches.drop_last());
        window_is_made_once_in_a_run(state, width, height, batches.drop_last());
        if before.error.is_none() && before.state.running {
            let batch = play(before.state, width, height, batches.last());
            window_is_made_once(before.state, width, height, batches.last());
            lemma_count_concat(before.requests, batch.requests, Request::GetXdgSurface);
        }
    }
}

/// Configure events are answered alike, however many arrive: each one
/// for an existing window is accepted and acknowledged exactly once by its
/// own serial, shows the buffer at most once, and exactly once if the
/// buffer exists. A second configure event leaves the state as the first
/// one left it.
pub proof fn configure_is_idempotent(state: State, width: u32, height: u32, first: u32, second: u32)
    requires
        state.wf(),
        state.xdg_surface,
    ensures
        ({
            let one = Event::Configure { serial: first };
            let two = Event::Configure { serial: second };
            let once = state.next(width, height, one);
            let again = once.requests(width, height, two);
            let shown = if state.buffer {
                1nat
            } else {
                0nat
            };
            &&& state.refusal(width, height, one).is_none()
            &&& once.refusal(width, height, two).is_none()
            &&& once.configured
            &&& once.next(width, height, two) == once
            &&& count(state.requests(width, height, one), Request::AckConfigure { serial: first })
                == 1
            &&& count(again, Request::AckConfigure { serial: second }) == 1
            &&& count(again, Request::Attach { x: 0, y: 0 }) == shown
            &&& count(again, Request::Commit) == shown
            &&& count(state.requests(width, height, one), Request::Attach { x: 0, y: 0 }) == shown
            &&& count(state.requests(width, height, one), Request::Commit) == shown
        }),
{
    let one = Event::Configure { serial: first };
    let two = Event::Configure { serial: second };
    let once = state.next(width, height, one);
    lemma_count_parts(width, height, 0, Interface::Other, 0, Request::Attach { x: 0, y: 0 });
    lemma_count_parts(width, height, 0, Interface::Other, 0, Request::Commit);
    lemma_count_parts(width, height, 0, Interface::Other, 0, Request::AckConfigure { serial: first });
    lemma_count_parts(
        width,
        height,
        0,
        Interface::Other,
        0,
        Request::AckConfigure { serial: second },
    );
    lemma_count_answers(state, width, height, one, Request::AckConfigure { serial: first });
    lemma_count_answers(state, width, height, one, Request::Attach { x: 0, y: 0 });
    lemma_count_answers(state, width, height, one, Request::Commit);
    lemma_count_answers(once, width, height, two, Request::AckConfigure { serial: second });
    lemma_count_answers(once, width, height, two, Request::Attach { x: 0, y: 0 });
    lemma_count_answers(once, width, height, two, Request::Commit);
}

/// A buffer that comes after the first configure event is shown at once:
/// the announcement of the shared-memory global to a configured session
/// that has no buffer yet is answered by the creation of the buffer, then
/// exactly one attach and exactly one commit, without another
/// acknowledgement.
pub proof fn late_buffer_is_shown_at_once(
    state: State,
    width: u32,
    height: u32,
    name: u32,
    version: u32,
    serial: u32,
)
    requires
        state.wf(),
        state.configured,
        !state.buffer,
        presentable(width, height),
    ensures
        ({
            let event = Event::Global { name, interface: Interface::Shm, version };
            let answer = state.requests(width, height, event);
            &&& state.refusal(width, height, event).is_none()
            &&& state.next(width, height, event) == (State { buffer: true, ..state })
            &&& answer == claim_requests(width, height, name, Interface::Shm, version)
                + present_requests()
            &&& count(answer, Request::Attach { x: 0, y: 0 }) == 1
            &&& count(answer, Request::Commit) == 1
            &&& count(answer, Request::AckConfigure { serial }) == 0
        }),
{
    let event = Event::Global { name, interface: Interface::Shm, version };
    assert(state.requests(width, height, event) =~= claim_requests(
        width,
        height,
        name,
        Interface::Shm,
        version,
    ) + present_requests());
    lemma_count_parts(width, height, name, Interface::Shm, version, Request::Attach { x: 0, y: 0 });
    lemma_count_parts(width, height, name, Interface::Shm, version, Request::Commit);
    lemma_count_parts(width, height, name, Interface::Shm, version, Request::AckConfigure { serial });
    lemma_count_answers(state, width, height, event, Request::Attach { x: 0, y: 0 });
    lemma_count_answers(state, width, height, event, Request::Commit);
    lemma_count_answers(state, width, height, event, Request::AckConfigure { serial });
}

/// A buffer that comes before the first configure event waits for it: its
/// creation attaches nothing, and the first configure event then shows it
/// exactly once.
pub proof fn early_buffer_waits_for_configure(
    state: State,
    width: u32,
    height: u32,
    name: u32,
    version: u32,
    serial: u32,
)
    requires
        state.wf(),
        state.xdg_surface,
        !state.configured,
        !state.buffer,
        presentable(width, height),
    ensures
        ({
            let made = Event::Global { name, interface: Interface::Shm, version };
            let held = state.next(width, height, made);
            let configure = Event::Configure { serial };
            &&& count(state.requests(width, height, made), Request::Attach { x: 0, y: 0 }) == 0
            &&& count(state.requests(width, height, made), Request::Commit) == 0
            &&& count(held.requests(width, height, configure), Request::Attach { x: 0, y: 0 }) == 1
            &&& count(held.requests(width, height, configure), Request::Commit) == 1
        }),
{
    let made = Event::Global { name, interface: Interface::Shm, version };
    let held = state.next(width, height, made);
    let configure = Event::Configure { serial };
    lemma_count_parts(width, height, name, Interface::Shm, version, Request::Attach { x: 0, y: 0 });
    lemma_count_parts(width, height, name, Interface::Shm, version, Request::Commit);
    lemma_count_answers(state, width, height, made, Request::Attach { x: 0, y: 0 });
    lemma_count_answers(state, width, height, made, Request::Commit);
    lemma_count_answers(held, width, height, configure, Request::Attach { x: 0, y: 0 });
    lemma_count_answers(held, width, height, configure, Request::Commit);
}

/// Whether the request attaches a buffer, commits the surface or binds a
/// global.
pub open spec fn presents_or_binds(request: Request) -> bool {
    match request {
        Request::Attach { x, y } => true,
        Request::Commit => true,
        Request::Bind { name, interface, version } => true,
        _ => false,
    }
}

/// Whether the event asks for such a request in the given state, whatever
/// the running flag says: the announcement of a global that is bound, or a
/// configure event for a window whose buffer exists.
pub open spec fn calls_for_content(state: State, width: u32, height: u32, event: Event) -> bool {
    match event {
        Event::Global { name, interface, version } => interface.recognized()
            && state.global_refusal(width, height, interface).is_none(),
        Event::Configure { serial } => state.xdg_surface && state.buffer,
        _ => false,
    }
}

/// A stopped session stays stopped: no event sets the running flag again.
pub proof fn stop_is_final(state: State, width: u32, height: u32, event: Event)
    requires
        !state.running,
    ensures
        !state.next(width, height, event).running,
{
}

/// A stopped session stays stopped through any batch.
pub proof fn stop_is_final_in_a_batch(state: State, width: u32, height: u32, events: Seq<Event>)
    requires
        !state.running,
    ensures
        !play(state, width, height, events).state.running,
    decreases events.len(),
{
    if events.len() > 0 {
        stop_is_final_in_a_batch(state, width, height, events.drop_last());
    }
}

/// Once the session is stopped, the dispatch loop plays no further batch:
/// whatever is still on record, nothing is sent and nothing changes.
pub proof fn nothing_is_played_after_stop(
    state: State,
    width: u32,
    height: u32,
    batches: Seq<Seq<Event>>,
)
    requires
        !state.running,
    ensures
        play_all(state, width, height, batches) == (Trace {
            state,
            requests: Seq::empty(),
            error: None,
        }),
    decreases batches.len(),
{
    if batches.len() > 0 {
        nothing_is_played_after_stop(state, width, height, batches.drop_last());
    }
}

/// Within the batch in which the session stopped, an event that follows
/// the stop is answered by no attach, commit or bind, unless it is the
/// announcement of a global that is bound or a configure event for a
/// window whose buffer exists: those are answered as in a running session.
pub proof fn stopped_session_sends_no_content(
    state: State,
    width: u32,
    height: u32,
    event: Event,
    index: int,
)
    requires
        !state.running,
        !calls_for_content(state, width, height, event),
        0 <= index < state.requests(width, height, event).len(),
    ensures
        !presents_or_binds(state.requests(width, height, event)[index]),
{
}

/// The events left out above are answered without regard to the running
/// flag: the answer of a stopped session is that of a running one.
pub proof fn answers_ignore_the_running_flag(state: State, width: u32, height: u32, event: Event)
    ensures
        ({
            let stopped = State { running: false, ..state };
            &&& stopped.requests(width, height, event) == state.requests(width, height, event)
            &&& stopped.refusal(width, height, event) == state.refusal(width, height, event)
        }),
{
}

/// The buffer is attached only when it exists and the window has been
/// configured: whenever the answer to an event holds an attach, both are
/// true of the state after the event.
pub proof fn attach_needs_buffer_and_configure(
    state: State,
    width: u32,
    height: u32,
    event: Event,
    index: int,
)
    requires
        0 <= index < state.requests(width, height, event).len(),
        state.requests(width, height, event)[index] is Attach,
    ensures
        state.next(width, height, event).buffer,
        state.next(width, height, event).configured,
        state.requests(width, height, event)[index] == (Request::Attach { x: 0, y: 0 }),
{
}

/// Nothing is committed before the first configure event is acknowledged,
/// but for the commit that ends the wrapping of the surface and carries no
/// buffer: every commit in the answer to an event comes directly after the
/// title of the new window, or directly after an attach in a session that
/// is configured.
pub proof fn commit_follows_title_or_attach(
    state: State,
    width: u32,
    height: u32,
    event: Event,
    index: int,
)
    requires
        0 <= index < state.requests(width, height, event).len(),
        state.requests(width, height, event)[index] == Request::Commit,
    ensures
        index >= 1,
        ({
            let before = state.requests(width, height, event)[index - 1];
            ||| before == Request::SetTitle
            ||| before == (Request::Attach { x: 0, y: 0 }) && state.next(
                width,
                height,
                event,
            ).configured
        }),
{
}

/// Each interface is bound when it is first announced and never again: the
/// answer to an event binds a global of an interface exactly when the
/// session did not hold that interface before the event and does after it.
/// What is held stays held.
pub proof fn interface_is_bound_when_first_announced(
    state: State,
    width: u32,
    height: u32,
    event: Event,
    interface: Interface,
)
    ensures
        ({
            let next = state.next(width, height, event);
            &&& state.holds(interface) ==> next.holds(interface)
            &&& binds(state.requests(width, height, event), interface) == if !state.holds(interface)
                && next.holds(interface) {
                1nat
            } else {
                0nat
            }
        }),
{
    lemma_tally_answers(state, width, height, event, binding(interface));
    match event {
        Event::Global { name, interface: announced, version } => {
            lemma_tally_parts(width, height, name, announced, version, binding(interface));
        },
        _ => {
            lemma_tally_parts(width, height, 0, Interface::Other, 0, binding(interface));
        },
    }
}

/// Over a whole play no interface is bound twice: the requests of a play
/// bind a global of an interface once if the session came to hold it
/// during the play, and never otherwise.
pub proof fn interface_is_bound_once(
    state: State,
    width: u32,
    height: u32,
    events: Seq<Event>,
    interface: Interface,
)
    ensures
        ({
            let trace = play(state, width, height, events);
            &&& state.holds(interface) ==> trace.state.holds(interface)
            &&& binds(trace.requests, interface) == if !state.holds(interface)
                && trace.state.holds(interface) {
                1nat
            } else {
                0nat
            }
        }),
    decreases events.len(),
{
    if events.len() > 0 {
        let before = play(state, width, height, events.drop_last());
        interface_is_bound_once(state, width, height, events.drop_last(), interface);
        if before.error.is_none() {
            interface_is_bound_when_first_announced(
                before.state,
                width,
                height,
                events.last(),
                interface,
            );
            lemma_tally_concat(
                before.requests,
                before.state.requests(width, height, events.last()),
                binding(interface),
            );
        }
    }
}

/// Over a whole run of batches no interface is bound twice.
pub proof fn interface_is_bound_once_in_a_run(
    state: State,
    width: u32,
    height: u32,
    batches: Seq<Seq<Event>>,
    interface: Interface,
)
    ensures
        ({
            let trace = play_all(state, width, height, batches);
            &&& state.holds(interface) ==> trace.state.holds(interface)
            &&& binds(trace.requests, interface) == if !state.holds(interface)
                && trace.state.holds(interface) {
                1nat
            } else {
                0nat
            }
        }),
    decreases batches.len(),
{
    if batches.len() > 0 {
        let before = play_all(state, width, height, batches.drop_last());
        interface_is_bound_once_in_a_run(state, width, height, batches.drop_last(), interface);
        if before.error.is_none() && before.state.running {
            let batch = play(before.state, width, height, batches.last());
            interface_is_bound_once(before.state, width, height, batches.last(), interface);
            lemma_tally_concat(before.requests, batch.requests, binding(interface));
        }
    }
}

/// A session holds an interface exactly if it held it at the start or a
/// global of that interface has been announced since, in whatever order
/// and between whatever other events, as long as no event was refused.
pub proof fn held_iff_announced(
    state: State,
    width: u32,
    height: u32,
    events: Seq<Event>,
    interface: Interface,
)
    requires
        interface.recognized(),
        play(state, width, height, events).error.is_none(),
    ensures
        play(state, width, height, events).state.holds(interface) <==> (state.holds(interface)
            || exists|at: int| 0 <= at < events.len() && announces(#[trigger] events[at], interface)),
    decreases events.len(),
{
    if events.len() > 0 {
        let earlier = events.drop_last();
        held_iff_announced(state, width, height, earlier, interface);
        let before = play(state, width, height, earlier);
        let after = play(state, width, height, events);
        if after.state.holds(interface) && !state.holds(interface) {
            if before.state.holds(interface) {
                let at = choose|at: int|
                    0 <= at < earlier.len() && announces(#[trigger] earlier[at], interface);
                assert(announces(events[at], interface));
            } else {
                assert(announces(events[events.len() - 1], interface));
            }
        }
        if exists|at: int| 0 <= at < events.len() && announces(#[trigger] events[at], interface) {
            let at = choose|at: int|
                0 <= at < events.len() && announces(#[trigger] events[at], interface);
            if at < earlier.len() {
                assert(announces(earlier[at], interface));
            }
        }
    }
}

/// Join-order independence over whole batches: if no event of a batch
/// played from the start is refused, the window exists at the end exactly
/// if both the compositor global and the window-manager global were
/// announced somewhere in the batch, and then the shell surface has been
/// asked for exactly once; otherwise it has not been asked for.
pub proof fn window_exists_iff_both_announced(width: u32, height: u32, events: Seq<Event>)
    requires
        play(State::initial(), width, height, events).error.is_none(),
    ensures
        ({
            let trace = play(State::initial(), width, height, events);
            let both = (exists|at: int|
                0 <= at < events.len() && announces(#[trigger] events[at], Interface::Compositor))
                && (exists|at: int|
                0 <= at < events.len() && announces(#[trigger] events[at], Interface::WmBase));
            &&& trace.state.xdg_surface == both
            &&& count(trace.requests, Request::GetXdgSurface) == if both {
                1nat
            } else {
                0nat
            }
        }),
{
    let start = State::initial();
    held_iff_announced(start, width, height, events, Interface::Compositor);
    held_iff_announced(start, width, height, events, Interface::WmBase);
    window_is_made_once(start, width, height, events);
}

/// Every configure event is acknowledged exactly once: over a batch in
/// which no event is refused, there are as many acknowledgements as
/// configure events.
pub proof fn every_configure_is_acknowledged(
    state: State,
    width: u32,
    height: u32,
    events: Seq<Event>,
)
    requires
        play(state, width, height, events).error.is_none(),
    ensures
        tally(play(state, width, height, events).requests, acknowledging()) == configures(events),
    decreases events.len(),
{
    if events.len() > 0 {
        let before = play(state, width, height, events.drop_last());
        every_configure_is_acknowledged(state, width, height, events.drop_last());
        let event = events.last();
        lemma_tally_answers(before.state, width, height, event, acknowledging());
        match event {
            Event::Global { name, interface, version } => {
                lemma_tally_parts(width, height, name, interface, version, acknowledging());
            },
            _ => {
                lemma_tally_parts(width, height, 0, Interface::Other, 0, acknowledging());
            },
        }
        lemma_tally_concat(
            before.requests,
            before.state.requests(width, height, event),
            acknowledging(),
        );
    }
}

/// The surface and the buffer are made with their globals and at no other
/// time: the requests of a batch create as many surfaces as they bind
/// compositor globals, and as many pools and buffers as they bind
/// shared-memory globals, which is at most one of each.
pub proof fn objects_are_made_with_their_globals(
    state: State,
    width: u32,
    height: u32,
    events: Seq<Event>,
)
    ensures
        ({
            let sent = play(state, width, height, events).requests;
            &&& count(sent, Request::CreateSurface) == binds(sent, Interface::Compositor) <= 1
            &&& count(sent, buffer_requests(width, height)[0]) == binds(sent, Interface::Shm) <= 1
            &&& count(sent, buffer_requests(width, height)[1]) == binds(sent, Interface::Shm)
        }),
    decreases events.len(),
{
    let pool = buffer_requests(width, height)[0];
    let buffer = buffer_requests(width, height)[1];
    interface_is_bound_once(state, width, height, events, Interface::Compositor);
    interface_is_bound_once(state, width, height, events, Interface::Shm);
    if events.len() > 0 {
        let before = play(state, width, height, events.drop_last());
        objects_are_made_with_their_globals(state, width, height, events.drop_last());
        if before.error.is_none() {
            let event = events.last();
            let answer = before.state.requests(width, height, event);
            lemma_count_answers(before.state, width, height, event, Request::CreateSurface);
            lemma_count_answers(before.state, width, height, event, pool);
            lemma_count_answers(before.state, width, height, event, buffer);
            lemma_tally_answers(before.state, width, height, event, binding(Interface::Compositor));
            lemma_tally_answers(before.state, width, height, event, binding(Interface::Shm));
            match event {
                Event::Global { name, interface, version } => {
                    lemma_count_parts(width, height, name, interface, version, Request::CreateSurface);
                    lemma_count_parts(width, height, name, interface, version, pool);
                    lemma_count_parts(width, height, name, interface, version, buffer);
                    lemma_tally_parts(
                        width,
                        height,
                        name,
                        interface,
                        version,
                        binding(Interface::Compositor),
                    );
                    lemma_tally_parts(
                        width,
                        height,
                        name,
                        interface,
                        version,
                        binding(Interface::Shm),
                    );
                },
                _ => {
                    lemma_count_parts(width, height, 0, Interface::Other, 0, Request::CreateSurface);
                    lemma_count_parts(width, height, 0, Interface::Other, 0, pool);
                    lemma_count_parts(width, height, 0, Interface::Other, 0, buffer);
                    lemma_tally_parts(
                        width,
                        height,
                        0,
                        Interface::Other,
                        0,
                        binding(Interface::Compositor),
                    );
                    lemma_tally_parts(width, height, 0, Interface::Other, 0, binding(Interface::Shm));
                },
            }
            lemma_count_concat(before.requests, answer, Request::CreateSurface);
            lemma_count_concat(before.requests, answer, pool);
            lemma_count_concat(before.requests, answer, buffer);
            lemma_tally_concat(before.requests, answer, binding(Interface::Compositor));
            lemma_tally_concat(before.requests, answer, binding(Interface::Shm));
        }
    }
}

/// The life of the window only moves forward: no event takes a
/// well-formed session to an earlier phase.
pub proof fn phase_never_goes_back(state: State, width: u32, height: u32, event: Event)
    requires
        state.wf(),
    ensures
        state.phase().rank() <= state.next(width, height, event).phase().rank(),
{
}

/// The life of the window only moves forward through any batch.
pub proof fn phase_never_goes_back_in_a_batch(
    state: State,
    width: u32,
    height: u32,
    events: Seq<Event>,
)
    requires
        state.wf(),
    ensures
        play(state, width, height, events).state.wf(),
        state.phase().rank() <= play(state, width, height, events).state.phase().rank(),
    decreases events.len(),
{
    if events.len() > 0 {
        phase_never_goes_back_in_a_batch(state, width, height, events.drop_last());
        let before = play(state, width, height, events.drop_last());
        phase_never_goes_back(before.state, width, height, events.last());
    }
}

/// Only the exit key stops the session: a key event with the exit code
/// clears the running flag and changes nothing else, and a key event with
/// any other code changes nothing. No key event is answered by a request,
/// and none is refused.
pub proof fn only_the_exit_key_stops(state: State, width: u32, height: u32, key: u32, pressed: u32)
    ensures
        ({
            let event = Event::Key { key, state: pressed };
            &&& key == EXIT_KEY ==> state.next(width, height, event) == (State {
                running: false,
                ..state
            })
            &&& key != EXIT_KEY ==> state.next(width, height, event) == state
            &&& state.requests(width, height, event) == Seq::<Request>::empty()
            &&& state.refusal(width, height, event).is_none()
        }),
        EXIT_KEY == 1,
{
}

} // verus!
