//! Counting requests: how often a request, or a kind of request, occurs in
//! what a session sends.

use vstd::prelude::*;
use crate::protocol::{Event, Interface, Request};
use crate::seat::offers_keyboard;
use crate::session::{buffer_requests, claim_requests, present_requests, wrap_requests, State};

verus! {

/// How many of the requests satisfy `wanted`.
pub open spec fn tally(requests: Seq<Request>, wanted: spec_fn(Request) -> bool) -> nat
    decreases requests.len(),
{
    if requests.len() == 0 {
        0
    } else {
        tally(requests.drop_last(), wanted) + hit(requests.last(), wanted)
    }
}

/// One if the request satisfies `wanted`, zero if not.
pub open spec fn hit(request: Request, wanted: spec_fn(Request) -> bool) -> nat {
    if wanted(request) {
        1
    } else {
        0
    }
}

/// Whether the request binds a global of the given interface.
pub open spec fn is_bind(request: Request, interface: Interface) -> bool {
    match request {
        Request::Bind { name, interface: bound, version } => bound == interface,
        _ => false,
    }
}

/// The test for being the given request.
pub open spec fn same_as(wanted: Request) -> spec_fn(Request) -> bool {
    |request: Request| request == wanted
}

/// The test for binding a global of the given interface.
pub open spec fn binding(interface: Interface) -> spec_fn(Request) -> bool {
    |request: Request| is_bind(request, interface)
}

/// The test for acknowledging a configure event, whatever its serial.
pub open spec fn acknowledging() -> spec_fn(Request) -> bool {
    |request: Request| request is AckConfigure
}

/// How many of the requests are the given one.
pub open spec fn count(requests: Seq<Request>, wanted: Request) -> nat {
    tally(requests, same_as(wanted))
}

/// How many of the requests bind a global of the given interface.
pub open spec fn binds(requests: Seq<Request>, interface: Interface) -> nat {
    tally(requests, binding(interface))
}

/// Tallying goes through a request that is appended.
pub proof fn lemma_tally_push(
    requests: Seq<Request>,
    last: Request,
    wanted: spec_fn(Request) -> bool,
)
    ensures
        tally(requests.push(last), wanted) == tally(requests, wanted) + hit(last, wanted),
{
    assert(requests.push(last).drop_last() =~= requests);
}

/// Tallying goes through concatenation.
pub proof fn lemma_tally_concat(
    front: Seq<Request>,
    back: Seq<Request>,
    wanted: spec_fn(Request) -> bool,
)
    ensures
        tally(front + back, wanted) == tally(front, wanted) + tally(back, wanted),
    decreases back.len(),
{
    if back.len() == 0 {
        assert(front + back =~= front);
    } else {
        assert((front + back).drop_last() =~= front + back.drop_last());
        lemma_tally_concat(front, back.drop_last(), wanted);
    }
}

/// The tally of each of the lists that the transition function is made of.
pub proof fn lemma_tally_parts(
    width: u32,
    height: u32,
    name: u32,
    interface: Interface,
    version: u32,
    wanted: spec_fn(Request) -> bool,
)
    ensures
        tally(Seq::empty(), wanted) == 0,
        tally(wrap_requests(), wanted) == hit(Request::GetXdgSurface, wanted) + hit(
            Request::GetToplevel,
            wanted,
        ) + hit(Request::SetTitle, wanted) + hit(Request::Commit, wanted),
        tally(present_requests(), wanted) == hit(Request::Attach { x: 0, y: 0 }, wanted) + hit(
            Request::Commit,
            wanted,
        ),
        tally(buffer_requests(width, height), wanted) == hit(
            buffer_requests(width, height)[0],
            wanted,
        ) + hit(buffer_requests(width, height)[1], wanted),
        tally(claim_requests(width, height, name, interface, version), wanted) == hit(
            Request::Bind { name, interface, version },
            wanted,
        ) + (if interface == Interface::Compositor {
            hit(Request::CreateSurface, wanted)
        } else if interface == Interface::Shm {
            tally(buffer_requests(width, height), wanted)
        } else {
            0nat
        }),
{
    let none = Seq::<Request>::empty();
    let one = none.push(Request::GetXdgSurface);
    let two = one.push(Request::GetToplevel);
    let three = two.push(Request::SetTitle);
    lemma_tally_push(none, Request::GetXdgSurface, wanted);
    lemma_tally_push(one, Request::GetToplevel, wanted);
    lemma_tally_push(two, Request::SetTitle, wanted);
    lemma_tally_push(three, Request::Commit, wanted);
    assert(wrap_requests() =~= three.push(Request::Commit));
    let attach = none.push(Request::Attach { x: 0, y: 0 });
    lemma_tally_push(none, Request::Attach { x: 0, y: 0 }, wanted);
    lemma_tally_push(attach, Request::Commit, wanted);
    assert(present_requests() =~= attach.push(Request::Commit));
    let pool = buffer_requests(width, height)[0];
    let buffer = buffer_requests(width, height)[1];
    lemma_tally_push(none, pool, wanted);
    lemma_tally_push(none.push(pool), buffer, wanted);
    assert(buffer_requests(width, height) =~= none.push(pool).push(buffer));
    let bind = Request::Bind { name, interface, version };
    lemma_tally_push(none, bind, wanted);
    lemma_tally_push(none, Request::CreateSurface, wanted);
    let used = match interface {
        Interface::Compositor => none.push(Request::CreateSurface),
        Interface::Shm => buffer_requests(width, height),
        _ => none,
    };
    lemma_tally_concat(none.push(bind), used, wanted);
    assert(claim_requests(width, height, name, interface, version) =~= none.push(bind) + used);
}

/// The tally of the answers to one event.
pub proof fn lemma_tally_answers(
    state: State,
    width: u32,
    height: u32,
    event: Event,
    wanted: spec_fn(Request) -> bool,
)
    ensures
        tally(state.requests(width, height, event), wanted) == match event {
            Event::Global { name, interface, version } => if !interface.recognized()
                || state.global_refusal(width, height, interface).is_some() {
                0nat
            } else {
                tally(claim_requests(width, height, name, interface, version), wanted) + tally(
                    state.having(interface).join_requests(),
                    wanted,
                ) + if interface == Interface::Shm && state.configured {
                    tally(present_requests(), wanted)
                } else {
                    0nat
                }
            },
            Event::Configure { serial } => if state.xdg_surface {
                hit(Request::AckConfigure { serial }, wanted) + if state.buffer {
                    tally(present_requests(), wanted)
                } else {
                    0nat
                }
            } else {
                0nat
            },
            Event::Ping { serial } => hit(Request::Pong { serial }, wanted),
            Event::Capabilities { capabilities } => if offers_keyboard(capabilities) {
                hit(Request::GetKeyboard, wanted)
            } else {
                0nat
            },
            _ => 0nat,
        },
{
    let none = Seq::<Request>::empty();
    match event {
        Event::Global { name, interface, version } => {
            if interface.recognized() && state.global_refusal(width, height, interface).is_none() {
                let claimed = claim_requests(width, height, name, interface, version);
                let joined = state.having(interface).join_requests();
                let shown = if interface == Interface::Shm && state.configured {
                    present_requests()
                } else {
                    none
                };
                lemma_tally_concat(claimed, joined, wanted);
                lemma_tally_concat(claimed + joined, shown, wanted);
            }
        },
        Event::Configure { serial } => {
            if state.xdg_surface {
                let ack = none.push(Request::AckConfigure { serial });
                let shown = if state.buffer {
                    present_requests()
                } else {
                    none
                };
                lemma_tally_push(none, Request::AckConfigure { serial }, wanted);
                lemma_tally_concat(ack, shown, wanted);
                assert(state.requests(width, height, event) =~= ack + shown);
            }
        },
        Event::Ping { serial } => {
            lemma_tally_push(none, Request::Pong { serial }, wanted);
            assert(state.requests(width, height, event) =~= none.push(Request::Pong { serial }));
        },
        Event::Capabilities { capabilities } => {
            lemma_tally_push(none, Request::GetKeyboard, wanted);
            assert(seq![Request::GetKeyboard] =~= none.push(Request::GetKeyboard));
        },
        _ => {},
    }
}

/// Counting goes through concatenation.
pub proof fn lemma_count_concat(front: Seq<Request>, back: Seq<Request>, wanted: Request)
    ensures
        count(front + back, wanted) == count(front, wanted) + count(back, wanted),
{
    lemma_tally_concat(front, back, same_as(wanted));
}

/// How often a request occurs in the lists that the transition function is
/// made of.
pub proof fn lemma_count_parts(
    width: u32,
    height: u32,
    name: u32,
    interface: Interface,
    version: u32,
    wanted: Request,
)
    ensures
        count(Seq::empty(), wanted) == 0,
        count(wrap_requests(), wanted) == if wanted == Request::GetXdgSurface || wanted
            == Request::GetToplevel || wanted == Request::SetTitle || wanted == Request::Commit {
            1nat
        } else {
            0nat
        },
        count(present_requests(), wanted) == if wanted == (Request::Attach { x: 0, y: 0 })
            || wanted == Request::Commit {
            1nat
        } else {
            0nat
        },
        count(buffer_requests(width, height), wanted) == if wanted == buffer_requests(
            width,
            height,
        )[0] || wanted == buffer_requests(width, height)[1] {
            1nat
        } else {
            0nat
        },
        count(claim_requests(width, height, name, interface, version), wanted) == (if wanted == (
        Request::Bind { name, interface, version }) {
            1nat
        } else {
            0nat
        }) + (if interface == Interface::Compositor && wanted == Request::CreateSurface {
            1nat
        } else {
            0nat
        }) + (if interface == Interface::Shm {
            count(buffer_requests(width, height), wanted)
        } else {
            0nat
        }),
{
    lemma_tally_parts(width, height, name, interface, version, same_as(wanted));
}

/// How often a request occurs among the answers to one event.
pub proof fn lemma_count_answers(state: State, width: u32, height: u32, event: Event, wanted: Request)
    ensures
        count(state.requests(width, height, event), wanted) == match event {
            Event::Global { name, interface, version } => if !interface.recognized()
                || state.global_refusal(width, height, interface).is_some() {
                0nat
            } else {
                count(claim_requests(width, height, name, interface, version), wanted) + count(
                    state.having(interface).join_requests(),
                    wanted,
                ) + if interface == Interface::Shm && state.configured {
                    count(present_requests(), wanted)
                } else {
                    0nat
                }
            },
            Event::Configure { serial } => if state.xdg_surface {
                (if wanted == (Request::AckConfigure { serial }) {
                    1nat
                } else {
                    0nat
                }) + if state.buffer {
                    count(present_requests(), wanted)
                } else {
                    0nat
                }
            } else {
                0nat
            },
            Event::Ping { serial } => if wanted == (Request::Pong { serial }) {
                1nat
            } else {
                0nat
            },
            Event::Capabilities { capabilities } => if wanted == Request::GetKeyboard
                && offers_keyboard(capabilities) {
                1nat
            } else {
                0nat
            },
            _ => 0nat,
        },
{
    lemma_tally_answers(state, width, height, event, same_as(wanted));
}

} // verus!
