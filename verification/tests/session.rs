use wayland_session::protocol::{Event, Interface, PixelFormat, Request, SessionError};
use wayland_session::session::{fits, Phase, State};

fn compositor(name: u32) -> Event {
    Event::global(name, "wl_compositor", 4)
}

fn wm_base(name: u32) -> Event {
    Event::global(name, "xdg_wm_base", 2)
}

fn shm(name: u32) -> Event {
    Event::global(name, "wl_shm", 1)
}

fn seat(name: u32) -> Event {
    Event::global(name, "wl_seat", 7)
}

fn wrap() -> Vec<Request> {
    vec![Request::GetXdgSurface, Request::GetToplevel, Request::SetTitle, Request::Commit]
}

fn present() -> Vec<Request> {
    vec![Request::Attach { x: 0, y: 0 }, Request::Commit]
}

fn send(state: &mut State, event: Event) -> Vec<Request> {
    let mut out = Vec::new();
    assert_eq!(state.event(4, 4, event, &mut out), Ok(()));
    out
}

#[test]
fn interface_names_are_recognized() {
    assert_eq!(Interface::from_name("wl_compositor"), Interface::Compositor);
    assert_eq!(Interface::from_name("wl_shm"), Interface::Shm);
    assert_eq!(Interface::from_name("wl_seat"), Interface::Seat);
    assert_eq!(Interface::from_name("xdg_wm_base"), Interface::WmBase);
    assert!(Interface::from_name("wl_shm").is_recognized());
}

#[test]
fn other_interface_names_are_not_recognized() {
    assert_eq!(Interface::from_name("wl_output"), Interface::Other);
    assert_eq!(Interface::from_name("wl_compositor "), Interface::Other);
    assert_eq!(Interface::from_name("WL_SHM"), Interface::Other);
    assert_eq!(Interface::from_name(""), Interface::Other);
    assert!(!Interface::from_name("wl_data_device_manager").is_recognized());
}

#[test]
fn global_event_carries_the_classified_interface() {
    assert_eq!(
        Event::global(9, "wl_seat", 5),
        Event::Global { name: 9, interface: Interface::Seat, version: 5 }
    );
    assert_eq!(
        Event::global(3, "zwp_linux_dmabuf_v1", 1),
        Event::Global { name: 3, interface: Interface::Other, version: 1 }
    );
}

#[test]
fn a_new_session_holds_nothing() {
    let state = State::new();
    assert!(state.running);
    assert!(!state.configured);
    assert!(!state.base_surface);
    assert!(!state.buffer);
    assert!(!state.wm_base);
    assert!(!state.xdg_surface);
    assert!(!state.seat);
    assert!(!state.has(Interface::Compositor));
    assert!(!state.has(Interface::Other));
}

#[test]
fn compositor_global_creates_the_surface() {
    let mut state = State::new();
    let out = send(&mut state, compositor(1));
    assert_eq!(
        out,
        vec![
            Request::Bind { name: 1, interface: Interface::Compositor, version: 4 },
            Request::CreateSurface,
        ]
    );
    assert!(state.base_surface);
    assert!(state.has(Interface::Compositor));
    assert!(!state.xdg_surface);
}

#[test]
fn window_is_made_when_the_shell_comes_last() {
    let mut state = State::new();
    let first = send(&mut state, compositor(1));
    assert!(!first.contains(&Request::GetXdgSurface));
    let second = send(&mut state, wm_base(2));
    let mut expected = vec![Request::Bind { name: 2, interface: Interface::WmBase, version: 2 }];
    expected.extend(wrap());
    assert_eq!(second, expected);
    assert!(state.xdg_surface);
}

#[test]
fn window_is_made_when_the_compositor_comes_last() {
    let mut state = State::new();
    let first = send(&mut state, wm_base(2));
    assert_eq!(first, vec![Request::Bind { name: 2, interface: Interface::WmBase, version: 2 }]);
    assert!(!state.xdg_surface);
    let second = send(&mut state, compositor(1));
    let mut expected = vec![
        Request::Bind { name: 1, interface: Interface::Compositor, version: 4 },
        Request::CreateSurface,
    ];
    expected.extend(wrap());
    assert_eq!(second, expected);
    assert!(state.xdg_surface);
}

#[test]
fn both_join_orders_reach_the_same_state() {
    let mut one = State::new();
    send(&mut one, compositor(1));
    send(&mut one, seat(5));
    send(&mut one, wm_base(2));
    let mut other = State::new();
    send(&mut other, wm_base(2));
    send(&mut other, compositor(1));
    send(&mut other, seat(5));
    assert_eq!(one, other);
    assert!(one.xdg_surface && one.base_surface && one.wm_base && one.seat);
}

#[test]
fn window_is_made_once_over_a_whole_session() {
    let mut state = State::new();
    let mut all = Vec::new();
    for event in [
        shm(3),
        wm_base(2),
        seat(4),
        compositor(1),
        Event::Configure { serial: 1 },
        Event::Ping { serial: 2 },
        Event::Configure { serial: 3 },
    ] {
        all.extend(send(&mut state, event));
    }
    let made = all.iter().filter(|request| **request == Request::GetXdgSurface).count();
    assert_eq!(made, 1);
}

#[test]
fn join_does_nothing_until_both_are_present() {
    let mut state = State::new();
    let mut out = Vec::new();
    state.init_xdg_surface(&mut out);
    assert!(out.is_empty());
    assert_eq!(state, State::new());
    send(&mut state, compositor(1));
    state.init_xdg_surface(&mut out);
    assert!(out.is_empty());
    assert!(!state.xdg_surface);
}

#[test]
fn join_wraps_once() {
    let mut state = State::new();
    send(&mut state, compositor(1));
    send(&mut state, wm_base(2));
    let mut out = Vec::new();
    state.init_xdg_surface(&mut out);
    assert!(out.is_empty());
    assert!(state.xdg_surface);
}

#[test]
fn shm_global_creates_the_buffer() {
    let mut state = State::new();
    let out = send(&mut state, shm(3));
    assert_eq!(
        out,
        vec![
            Request::Bind { name: 3, interface: Interface::Shm, version: 1 },
            Request::CreatePool { size: 64 },
            Request::CreateBuffer {
                offset: 0,
                width: 4,
                height: 4,
                stride: 16,
                format: PixelFormat::Argb8888,
            },
        ]
    );
    assert!(state.buffer);
    assert!(!state.configured);
}

#[test]
fn buffer_geometry_follows_the_picture_size() {
    let mut state = State::new();
    let mut out = Vec::new();
    assert_eq!(state.event(640, 480, shm(3), &mut out), Ok(()));
    assert_eq!(out[1], Request::CreatePool { size: 1_228_800 });
    assert_eq!(
        out[2],
        Request::CreateBuffer {
            offset: 0,
            width: 640,
            height: 480,
            stride: 2560,
            format: PixelFormat::Argb8888,
        }
    );
}

#[test]
fn seat_global_is_bound() {
    let mut state = State::new();
    let out = send(&mut state, seat(4));
    assert_eq!(out, vec![Request::Bind { name: 4, interface: Interface::Seat, version: 7 }]);
    assert!(state.seat);
}

#[test]
fn unknown_global_is_ignored() {
    let mut state = State::new();
    let out = send(&mut state, Event::global(8, "wl_output", 3));
    assert!(out.is_empty());
    assert_eq!(state, State::new());
    let again = send(&mut state, Event::global(9, "wl_output", 3));
    assert!(again.is_empty());
}

#[test]
fn global_removal_is_ignored() {
    let mut state = State::new();
    send(&mut state, compositor(1));
    let before = state;
    let out = send(&mut state, Event::GlobalRemove { name: 1 });
    assert!(out.is_empty());
    assert_eq!(state, before);
}

#[test]
fn duplicate_global_is_a_protocol_violation() {
    for event in [compositor(1), shm(3), seat(4), wm_base(2)] {
        let mut state = State::new();
        send(&mut state, event);
        let before = state;
        let mut out = vec![Request::Pong { serial: 0 }];
        assert_eq!(state.event(4, 4, event, &mut out), Err(SessionError::ProtocolViolation));
        assert_eq!(out, vec![Request::Pong { serial: 0 }]);
        assert_eq!(state, before);
    }
}

#[test]
fn oversized_picture_is_a_resource_allocation_error() {
    let mut state = State::new();
    let mut out = Vec::new();
    assert_eq!(
        state.event(32768, 16384, shm(3), &mut out),
        Err(SessionError::ResourceAllocation)
    );
    assert!(out.is_empty());
    assert_eq!(state, State::new());
    assert_eq!(state.event(32768, 16383, shm(3), &mut out), Ok(()));
    assert_eq!(out[1], Request::CreatePool { size: 2_147_352_576 });
}

#[test]
fn oversized_picture_does_not_trouble_other_globals() {
    let mut state = State::new();
    let mut out = Vec::new();
    assert_eq!(state.event(u32::MAX, u32::MAX, compositor(1), &mut out), Ok(()));
    assert_eq!(state.event(u32::MAX, u32::MAX, wm_base(2), &mut out), Ok(()));
    assert!(state.xdg_surface);
}

#[test]
fn fits_is_exact_at_the_limit() {
    assert!(fits(4, 4));
    assert!(fits(0, 0));
    assert!(fits(536_870_911, 1));
    assert!(!fits(536_870_912, 1));
    assert!(fits(1, 536_870_911));
    assert!(!fits(1, 536_870_912));
    assert!(fits(23170, 23170));
    assert!(!fits(23171, 23171));
    assert!(!fits(536_870_912, 0));
    assert!(fits(0, 2_147_483_647));
    assert!(!fits(0, 2_147_483_648));
    assert!(!fits(u32::MAX, u32::MAX));
}

#[test]
fn configure_is_acknowledged_without_a_buffer() {
    let mut state = State::new();
    send(&mut state, compositor(1));
    send(&mut state, wm_base(2));
    let out = send(&mut state, Event::Configure { serial: 77 });
    assert_eq!(out, vec![Request::AckConfigure { serial: 77 }]);
    assert!(state.configured);
}

#[test]
fn configure_shows_an_existing_buffer() {
    let mut state = State::new();
    send(&mut state, shm(3));
    send(&mut state, compositor(1));
    send(&mut state, wm_base(2));
    let out = send(&mut state, Event::Configure { serial: 5 });
    let mut expected = vec![Request::AckConfigure { serial: 5 }];
    expected.extend(present());
    assert_eq!(out, expected);
    assert!(state.configured);
}

#[test]
fn repeated_configure_is_answered_alike() {
    let mut state = State::new();
    send(&mut state, shm(3));
    send(&mut state, compositor(1));
    send(&mut state, wm_base(2));
    send(&mut state, Event::Configure { serial: 5 });
    let once = state;
    for serial in [6, 7, 7, u32::MAX] {
        let out = send(&mut state, Event::Configure { serial });
        assert_eq!(
            out,
            vec![
                Request::AckConfigure { serial },
                Request::Attach { x: 0, y: 0 },
                Request::Commit,
            ]
        );
        assert_eq!(state, once);
    }
}

#[test]
fn configure_without_a_window_is_a_protocol_violation() {
    let mut state = State::new();
    let mut out = Vec::new();
    assert_eq!(state.on_configure(1, &mut out), Err(SessionError::ProtocolViolation));
    assert!(out.is_empty());
    send(&mut state, compositor(1));
    send(&mut state, shm(3));
    assert_eq!(
        state.event(4, 4, Event::Configure { serial: 1 }, &mut out),
        Err(SessionError::ProtocolViolation)
    );
    assert!(out.is_empty());
    assert!(!state.configured);
}

#[test]
fn late_buffer_is_shown_without_another_configure() {
    let mut state = State::new();
    send(&mut state, compositor(1));
    send(&mut state, wm_base(2));
    send(&mut state, Event::Configure { serial: 1 });
    let out = send(&mut state, shm(3));
    assert_eq!(
        out,
        vec![
            Request::Bind { name: 3, interface: Interface::Shm, version: 1 },
            Request::CreatePool { size: 64 },
            Request::CreateBuffer {
                offset: 0,
                width: 4,
                height: 4,
                stride: 16,
                format: PixelFormat::Argb8888,
            },
            Request::Attach { x: 0, y: 0 },
            Request::Commit,
        ]
    );
    assert_eq!(out.iter().filter(|request| **request == Request::Commit).count(), 1);
}

#[test]
fn early_buffer_waits_for_the_first_configure() {
    let mut state = State::new();
    send(&mut state, compositor(1));
    send(&mut state, wm_base(2));
    let made = send(&mut state, shm(3));
    assert!(!made.contains(&Request::Attach { x: 0, y: 0 }));
    assert!(!made.contains(&Request::Commit));
    let out = send(&mut state, Event::Configure { serial: 9 });
    assert_eq!(
        out,
        vec![Request::AckConfigure { serial: 9 }, Request::Attach { x: 0, y: 0 }, Request::Commit]
    );
}

#[test]
fn close_stops_the_session() {
    let mut state = State::new();
    send(&mut state, compositor(1));
    send(&mut state, wm_base(2));
    let before = state;
    let out = send(&mut state, Event::Close);
    assert!(out.is_empty());
    assert_eq!(state, State { running: false, ..before });
    state.on_close();
    assert!(!state.running);
}

#[test]
fn ping_is_echoed() {
    let mut state = State::new();
    send(&mut state, wm_base(2));
    let before = state;
    let out = send(&mut state, Event::Ping { serial: 4242 });
    assert_eq!(out, vec![Request::Pong { serial: 4242 }]);
    assert_eq!(state, before);
}

#[test]
fn keyboard_capability_asks_for_the_keyboard() {
    let mut state = State::new();
    send(&mut state, seat(4));
    let before = state;
    for capabilities in [2, 3, 6, 7] {
        let out = send(&mut state, Event::Capabilities { capabilities });
        assert_eq!(out, vec![Request::GetKeyboard]);
    }
    assert_eq!(state, before);
}

#[test]
fn other_capabilities_ask_for_nothing() {
    let mut state = State::new();
    send(&mut state, seat(4));
    for capabilities in [0, 1, 4, 5] {
        let out = send(&mut state, Event::Capabilities { capabilities });
        assert!(out.is_empty());
    }
}

#[test]
fn keyboard_bit_counts_beside_unknown_bits() {
    let state = State::new();
    let mut out = Vec::new();
    state.on_capabilities(2 | 8, &mut out);
    state.on_capabilities(8, &mut out);
    state.on_capabilities(u32::MAX, &mut out);
    state.on_capabilities(u32::MAX - 2, &mut out);
    assert_eq!(out, vec![Request::GetKeyboard, Request::GetKeyboard]);
}

#[test]
fn exit_key_stops_the_session() {
    let mut state = State::new();
    send(&mut state, seat(4));
    let before = state;
    let out = send(&mut state, Event::Key { key: 1, state: 1 });
    assert!(out.is_empty());
    assert_eq!(state, State { running: false, ..before });
}

#[test]
fn exit_key_stops_on_release_too() {
    let mut state = State::new();
    send(&mut state, Event::Key { key: 1, state: 0 });
    assert!(!state.running);
}

#[test]
fn other_keys_change_nothing() {
    let mut state = State::new();
    send(&mut state, seat(4));
    let before = state;
    for key in [0, 2, 16, 28, 256, 257, u32::MAX] {
        let out = send(&mut state, Event::Key { key, state: 1 });
        assert!(out.is_empty());
        assert_eq!(state, before);
    }
    state.on_key(30);
    assert!(state.running);
}

#[test]
fn stopped_session_stays_stopped() {
    let mut state = State::new();
    send(&mut state, Event::Close);
    for event in [
        compositor(1),
        wm_base(2),
        shm(3),
        seat(4),
        Event::Configure { serial: 1 },
        Event::Key { key: 2, state: 1 },
        Event::Ping { serial: 3 },
        Event::Capabilities { capabilities: 2 },
        Event::GlobalRemove { name: 1 },
    ] {
        send(&mut state, event);
        assert!(!state.running);
    }
}

#[test]
fn requests_are_appended_to_what_was_sent() {
    let mut state = State::new();
    let mut out = vec![Request::Pong { serial: 1 }];
    state.on_ping(2, &mut out);
    assert_eq!(state.on_global(4, 4, 1, Interface::Compositor, 4, &mut out), Ok(()));
    assert_eq!(
        out,
        vec![
            Request::Pong { serial: 1 },
            Request::Pong { serial: 2 },
            Request::Bind { name: 1, interface: Interface::Compositor, version: 4 },
            Request::CreateSurface,
        ]
    );
}

#[test]
fn phases_follow_the_life_of_the_window() {
    let mut state = State::new();
    assert_eq!(state.current_phase(), Phase::Uninitialized);
    send(&mut state, shm(3));
    assert_eq!(state.current_phase(), Phase::Uninitialized);
    send(&mut state, compositor(1));
    assert_eq!(state.current_phase(), Phase::CompositorBound);
    send(&mut state, wm_base(2));
    assert_eq!(state.current_phase(), Phase::AwaitingConfigure);
    send(&mut state, Event::Configure { serial: 1 });
    assert_eq!(state.current_phase(), Phase::Configured);
    send(&mut state, Event::Configure { serial: 2 });
    assert_eq!(state.current_phase(), Phase::Configured);
    send(&mut state, Event::Close);
    assert_eq!(state.current_phase(), Phase::Closed);
    send(&mut state, Event::Configure { serial: 3 });
    assert_eq!(state.current_phase(), Phase::Closed);
}

#[test]
fn a_session_can_close_before_it_has_a_window() {
    let mut state = State::new();
    send(&mut state, wm_base(2));
    assert_eq!(state.current_phase(), Phase::Uninitialized);
    send(&mut state, Event::Key { key: 1, state: 1 });
    assert_eq!(state.current_phase(), Phase::Closed);
}

#[test]
fn every_configure_is_acknowledged_once() {
    let mut state = State::new();
    send(&mut state, compositor(1));
    send(&mut state, wm_base(2));
    let mut all = Vec::new();
    for event in [
        Event::Configure { serial: 1 },
        Event::Ping { serial: 1 },
        Event::Configure { serial: 1 },
        shm(3),
        Event::Configure { serial: 2 },
        Event::Close,
        Event::Configure { serial: 3 },
    ] {
        all.extend(send(&mut state, event));
    }
    let acks: Vec<u32> = all
        .iter()
        .filter_map(|request| match request {
            Request::AckConfigure { serial } => Some(*serial),
            _ => None,
        })
        .collect();
    assert_eq!(acks, vec![1, 1, 2, 3]);
}

#[test]
fn nothing_is_attached_before_buffer_and_configure() {
    let orders = [
        [compositor(1), wm_base(2), shm(3), Event::Configure { serial: 1 }],
        [compositor(1), wm_base(2), Event::Configure { serial: 1 }, shm(3)],
        [shm(3), wm_base(2), compositor(1), Event::Configure { serial: 1 }],
        [wm_base(2), shm(3), compositor(1), Event::Configure { serial: 1 }],
    ];
    for order in orders {
        let mut state = State::new();
        let mut attached = 0;
        for event in order {
            let out = send(&mut state, event);
            if out.contains(&Request::Attach { x: 0, y: 0 }) {
                assert!(state.buffer && state.configured);
                assert_eq!(out[out.len() - 2..], present()[..]);
                attached += 1;
            }
        }
        assert_eq!(attached, 1);
    }
}

#[test]
fn the_first_commit_carries_no_buffer() {
    let mut state = State::new();
    send(&mut state, shm(3));
    send(&mut state, compositor(1));
    let out = send(&mut state, wm_base(2));
    assert_eq!(out.iter().filter(|request| **request == Request::Commit).count(), 1);
    assert!(!out.iter().any(|request| matches!(request, Request::Attach { .. })));
    assert_eq!(out.last(), Some(&Request::Commit));
    assert_eq!(out[out.len() - 2], Request::SetTitle);
}

#[test]
fn each_interface_is_bound_once() {
    let mut state = State::new();
    let mut all = Vec::new();
    for event in [compositor(1), shm(3), seat(4), wm_base(2), Event::Configure { serial: 1 }] {
        all.extend(send(&mut state, event));
    }
    for interface in [Interface::Compositor, Interface::Shm, Interface::Seat, Interface::WmBase] {
        let bound = all
            .iter()
            .filter(|request| matches!(request, Request::Bind { interface: i, .. } if *i == interface))
            .count();
        assert_eq!(bound, 1);
    }
    assert_eq!(all.iter().filter(|request| **request == Request::CreateSurface).count(), 1);
    assert_eq!(
        all.iter().filter(|request| matches!(request, Request::CreatePool { .. })).count(),
        1
    );
}
