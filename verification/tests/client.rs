use wayland_session::client::WaylandClient;
use wayland_session::protocol::{Event, Interface, PixelFormat, Request, SessionError};
use wayland_session::session::State;

fn globals() -> Vec<Event> {
    vec![
        Event::global(1, "wl_compositor", 4),
        Event::global(2, "wl_subcompositor", 1),
        Event::global(3, "wl_shm", 1),
        Event::global(4, "xdg_wm_base", 2),
        Event::global(5, "wl_seat", 7),
    ]
}

fn globals_answer() -> Vec<Request> {
    vec![
        Request::Bind { name: 1, interface: Interface::Compositor, version: 4 },
        Request::CreateSurface,
        Request::Bind { name: 3, interface: Interface::Shm, version: 1 },
        Request::CreatePool { size: 64 },
        Request::CreateBuffer {
            offset: 0,
            width: 4,
            height: 4,
            stride: 16,
            format: PixelFormat::Argb8888,
        },
        Request::Bind { name: 4, interface: Interface::WmBase, version: 2 },
        Request::GetXdgSurface,
        Request::GetToplevel,
        Request::SetTitle,
        Request::Commit,
        Request::Bind { name: 5, interface: Interface::Seat, version: 7 },
    ]
}

#[test]
fn a_new_client_is_running_and_holds_nothing() {
    let client = WaylandClient::new(640, 480);
    assert!(client.is_running());
    assert_eq!(client.state(), State::new());
    assert_eq!(client.width(), 640);
    assert_eq!(client.height(), 480);
}

#[test]
fn a_batch_is_played_in_arrival_order() {
    let mut client = WaylandClient::new(4, 4);
    let mut out = Vec::new();
    assert_eq!(client.dispatch(&globals(), &mut out), Ok(()));
    assert_eq!(out, globals_answer());
    let state = client.state();
    assert!(state.base_surface && state.buffer && state.wm_base && state.seat);
    assert!(state.xdg_surface);
    assert!(!state.configured);
    assert!(client.is_running());
}

#[test]
fn an_empty_batch_changes_nothing() {
    let mut client = WaylandClient::new(4, 4);
    let mut out = vec![Request::Commit];
    assert_eq!(client.dispatch(&Vec::new(), &mut out), Ok(()));
    assert_eq!(out, vec![Request::Commit]);
    assert_eq!(client.state(), State::new());
}

#[test]
fn a_batch_is_played_to_its_end_after_a_close() {
    let mut client = WaylandClient::new(4, 4);
    let mut out = Vec::new();
    assert_eq!(client.dispatch(&globals(), &mut out), Ok(()));
    out.clear();
    let batch = vec![Event::Close, Event::Configure { serial: 8 }, Event::Ping { serial: 9 }];
    assert_eq!(client.dispatch(&batch, &mut out), Ok(()));
    assert_eq!(
        out,
        vec![
            Request::AckConfigure { serial: 8 },
            Request::Attach { x: 0, y: 0 },
            Request::Commit,
            Request::Pong { serial: 9 },
        ]
    );
    assert!(!client.is_running());
    assert!(client.state().configured);
}

#[test]
fn a_batch_that_configures_and_closes_does_both() {
    let mut client = WaylandClient::new(4, 4);
    let mut out = Vec::new();
    let batches = vec![
        globals(),
        vec![Event::Configure { serial: 1 }, Event::Close],
        vec![Event::Configure { serial: 2 }],
    ];
    assert_eq!(client.run(&batches, &mut out), Ok(()));
    let mut expected = globals_answer();
    expected.extend([
        Request::AckConfigure { serial: 1 },
        Request::Attach { x: 0, y: 0 },
        Request::Commit,
    ]);
    assert_eq!(out, expected);
    assert!(!client.is_running());
}

#[test]
fn no_batch_is_played_after_the_session_stopped() {
    let mut client = WaylandClient::new(4, 4);
    let mut out = Vec::new();
    let batches = vec![
        vec![Event::Key { key: 1, state: 1 }],
        globals(),
        vec![Event::Configure { serial: 1 }],
    ];
    assert_eq!(client.run(&batches, &mut out), Ok(()));
    assert!(out.is_empty());
    assert_eq!(client.state(), State { running: false, ..State::new() });
    assert_eq!(client.run(&batches, &mut out), Ok(()));
    assert!(out.is_empty());
}

#[test]
fn a_run_ends_with_the_record_if_nothing_stops_it() {
    let mut client = WaylandClient::new(4, 4);
    let mut out = Vec::new();
    let batches = vec![globals(), Vec::new(), vec![Event::Configure { serial: 3 }]];
    assert_eq!(client.run(&batches, &mut out), Ok(()));
    assert!(client.is_running());
    assert!(client.state().configured);
    assert_eq!(out.len(), globals_answer().len() + 3);
    assert_eq!(client.run(&Vec::new(), &mut out), Ok(()));
    assert_eq!(out.len(), globals_answer().len() + 3);
}

#[test]
fn a_whole_session_from_announcement_to_exit_key() {
    let mut client = WaylandClient::new(4, 4);
    let mut out = Vec::new();
    let batches = vec![
        globals(),
        vec![Event::Capabilities { capabilities: 3 }, Event::Configure { serial: 10 }],
        vec![Event::Ping { serial: 11 }, Event::Key { key: 30, state: 1 }],
        vec![Event::Key { key: 1, state: 1 }],
        vec![Event::Ping { serial: 12 }],
    ];
    assert_eq!(client.run(&batches, &mut out), Ok(()));
    let mut expected = globals_answer();
    expected.extend([
        Request::GetKeyboard,
        Request::AckConfigure { serial: 10 },
        Request::Attach { x: 0, y: 0 },
        Request::Commit,
        Request::Pong { serial: 11 },
    ]);
    assert_eq!(out, expected);
    assert!(!client.is_running());
}

#[test]
fn a_refused_event_ends_the_batch() {
    let mut client = WaylandClient::new(4, 4);
    let mut out = Vec::new();
    let batch = vec![
        Event::global(1, "wl_compositor", 4),
        Event::global(6, "wl_compositor", 4),
        Event::global(4, "xdg_wm_base", 2),
    ];
    assert_eq!(client.dispatch(&batch, &mut out), Err(SessionError::ProtocolViolation));
    assert_eq!(
        out,
        vec![
            Request::Bind { name: 1, interface: Interface::Compositor, version: 4 },
            Request::CreateSurface,
        ]
    );
    assert_eq!(client.state(), State { base_surface: true, ..State::new() });
}

#[test]
fn a_refused_event_ends_the_run() {
    let mut client = WaylandClient::new(4, 4);
    let mut out = Vec::new();
    let batches = vec![
        vec![Event::Ping { serial: 1 }],
        vec![Event::Configure { serial: 2 }, Event::Ping { serial: 3 }],
        vec![Event::Ping { serial: 4 }],
    ];
    assert_eq!(client.run(&batches, &mut out), Err(SessionError::ProtocolViolation));
    assert_eq!(out, vec![Request::Pong { serial: 1 }]);
    assert!(client.is_running());
}

#[test]
fn an_oversized_picture_is_refused_when_the_buffer_is_made() {
    let mut client = WaylandClient::new(65536, 65536);
    let mut out = Vec::new();
    assert_eq!(client.dispatch(&globals(), &mut out), Err(SessionError::ResourceAllocation));
    assert_eq!(
        out,
        vec![
            Request::Bind { name: 1, interface: Interface::Compositor, version: 4 },
            Request::CreateSurface,
        ]
    );
    assert!(!client.state().buffer);
}

#[test]
fn the_state_of_a_client_is_always_well_formed() {
    let mut client = WaylandClient::new(4, 4);
    let mut out = Vec::new();
    for event in globals() {
        assert_eq!(client.dispatch(&vec![event], &mut out), Ok(()));
        let state = client.state();
        assert_eq!(state.xdg_surface, state.base_surface && state.wm_base);
        assert!(!state.configured || state.xdg_surface);
    }
}
