//! The protocol object models: event queues, object registry, shell surfaces,
//! the session on the login manager, and key-combination parsing.

use jay::client::Client;
use jay::client::ClientError;
use jay::client::Version;
use jay::ifs::ext_foreign_toplevel_handle_state_v1::ExtForeignToplevelHandleStateV1;
use jay::ifs::ext_foreign_toplevel_handle_v1::ExtForeignToplevelHandleV1;
use jay::ifs::ext_foreign_toplevel_handle_v1::ToplevelData;
use jay::ifs::ext_foreign_toplevel_state_v1::ExtForeignToplevelStateV1Global;
use jay::ifs::wl_output::OutputId;
use jay::ifs::wl_surface::xdg_surface::PendingXdgSurfaceData;
use jay::ifs::wl_surface::xdg_surface::XdgSurface;
use jay::ifs::wl_surface::xdg_surface::XdgSurfaceError;
use jay::ifs::wl_surface::xdg_surface::XdgSurfaceRole;
use jay::logind::DbusCall;
use jay::logind::DbusSocket;
use jay::logind::Session;
use jay::modified_keysym::ModifiedKeySym;
use jay::modified_keysym::ModifiedKeysymParser;
use jay::modified_keysym::ModifiedKeysymParserError;
use jay::modified_keysym::Span;
use jay::rect::Rect;
use jay::wire::WireEvent;

fn client() -> Client {
    Client::new(7)
}

#[test]
fn object_registry_rejects_duplicates_and_unknown_removals() {
    let mut c = client();
    assert_eq!(c.add_client_obj(10), Ok(()));
    assert_eq!(c.add_client_obj(10), Err(ClientError::ObjectAlreadyExists));
    assert_eq!(c.remove_obj(11), Err(ClientError::ObjectDoesNotExist));
    assert_eq!(c.remove_obj(10), Ok(()));
    assert!(c.objects.is_empty());
}

#[test]
fn handle_state_reports_the_state_bits() {
    let st = ExtForeignToplevelHandleStateV1 { id: 3, client_id: 7, version: Version(1) };
    let mut c = client();
    st.send_state(&mut c, true, true);
    st.send_state(&mut c, false, true);
    st.send_state(&mut c, false, false);
    assert_eq!(c.events.len(), 3);
    assert_eq!(c.events[0], WireEvent::ForeignToplevelState { self_id: 3, states: 12 });
    assert_eq!(c.events[1], WireEvent::ForeignToplevelState { self_id: 3, states: 8 });
    assert_eq!(c.events[2], WireEvent::ForeignToplevelState { self_id: 3, states: 0 });
}

#[test]
fn handle_relays_properties_and_lifecycle() {
    let handle = ExtForeignToplevelHandleV1 {
        id: 4,
        client_id: 7,
        version: Version(1),
        has_toplevel: true,
        toplevel_state: None,
    };
    let mut c = client();
    handle.send_title(&mut c, "editor");
    handle.send_app_id(&mut c, "org.example.editor");
    handle.send_identifier(&mut c, "id-1");
    handle.send_done(&mut c);
    handle.send_closed(&mut c);
    // Without a state object the state event is dropped.
    handle.send_state(&mut c, true, false);
    assert_eq!(c.events.len(), 5);
    assert_eq!(
        c.events[0],
        WireEvent::ForeignToplevelTitle { self_id: 4, title: "editor".to_string() }
    );
    assert_eq!(c.events[3], WireEvent::ForeignToplevelDone { self_id: 4 });
    assert_eq!(c.events[4], WireEvent::ForeignToplevelClosed { self_id: 4 });
}

#[test]
fn detach_unregisters_the_handle_from_its_toplevel() {
    let handle = ExtForeignToplevelHandleV1 {
        id: 4,
        client_id: 7,
        version: Version(1),
        has_toplevel: true,
        toplevel_state: None,
    };
    let mut tl = ToplevelData { handles: vec![(7, 4), (8, 4), (7, 5)], active: false, fullscreen: false };
    handle.detach(&mut tl);
    assert_eq!(tl.handles, vec![(8, 4), (7, 5)]);
}

#[test]
fn binding_the_state_global_announces_capabilities() {
    let global = ExtForeignToplevelStateV1Global::new(1);
    assert!(global.singleton());
    assert_eq!(global.version(), 1);
    let mut c = client();
    let obj = global.bind_(9, &mut c, Version(1)).unwrap();
    assert_eq!(obj.id, 9);
    assert_eq!(c.objects, vec![9]);
    assert_eq!(
        c.events,
        vec![WireEvent::ForeignToplevelCapabilities { self_id: 9, capabilities: 12 }]
    );
    // The per-handle state object reports the toplevel's current state.
    let mut handle = ExtForeignToplevelHandleV1 {
        id: 4,
        client_id: 7,
        version: Version(1),
        has_toplevel: true,
        toplevel_state: None,
    };
    let tl = ToplevelData { handles: vec![(7, 4)], active: true, fullscreen: false };
    let st = obj.get_handle_state(&mut c, &mut handle, &tl, 12).unwrap();
    assert_eq!(st.id, 12);
    assert_eq!(handle.toplevel_state, Some(st));
    assert_eq!(
        c.events.last().unwrap(),
        &WireEvent::ForeignToplevelState { self_id: 12, states: 4 }
    );
}

#[test]
fn output_id_keeps_the_connector_only_without_a_serial() {
    let with_serial = OutputId::new(
        "DP-1".to_string(),
        "ACME".to_string(),
        "Monitor".to_string(),
        "123".to_string(),
    );
    assert!(with_serial.connector.is_none());
    let without_serial = OutputId::new(
        "DP-1".to_string(),
        "ACME".to_string(),
        "Monitor".to_string(),
        String::new(),
    );
    assert_eq!(without_serial.connector.as_deref(), Some("DP-1"));
}

#[test]
fn xdg_surface_roles_are_sticky() {
    let mut s = XdgSurface::new(1, Rect::new_empty(0, 0));
    assert_eq!(s.role, XdgSurfaceRole::Unassigned);
    assert!(s.set_role(XdgSurfaceRole::XdgToplevel).is_ok());
    assert!(s.set_role(XdgSurfaceRole::XdgToplevel).is_ok());
    let err = s.set_role(XdgSurfaceRole::XdgPopup).unwrap_err();
    assert_eq!(
        err,
        XdgSurfaceError::IncompatibleRole {
            id: 1,
            old: XdgSurfaceRole::XdgToplevel,
            new: XdgSurfaceRole::XdgPopup,
        }
    );
}

#[test]
fn window_geometry_validation() {
    let s = XdgSurface::new(1, Rect::new_empty(0, 0));
    let mut pending = PendingXdgSurfaceData::default();
    // A zero-by-zero geometry is silently ignored.
    assert!(s.set_window_geometry(&mut pending, 5, 5, 0, 0).is_ok());
    assert!(pending.geometry.is_none());
    // Other non-positive sizes are protocol errors.
    assert_eq!(
        s.set_window_geometry(&mut pending, 5, 5, -1, 10),
        Err(XdgSurfaceError::NonPositiveWidthHeight)
    );
    assert!(s.set_window_geometry(&mut pending, 5, 5, 10, 20).is_ok());
    let geo = pending.geometry.unwrap();
    assert_eq!((geo.x1, geo.y1, geo.x2, geo.y2), (5, 5, 15, 25));
}

#[test]
fn pending_state_merge_takes_the_newer_geometry() {
    let mut a = PendingXdgSurfaceData { geometry: Some(Rect::new_empty(1, 1)) };
    let mut b = PendingXdgSurfaceData { geometry: Some(Rect::new_empty(2, 2)) };
    a.merge(&mut b);
    assert_eq!(a.geometry, Some(Rect::new_empty(2, 2)));
    assert!(b.geometry.is_none());
    let mut c = PendingXdgSurfaceData::default();
    a.merge(&mut c);
    assert_eq!(a.geometry, Some(Rect::new_empty(2, 2)));
}

#[test]
fn configure_serials_and_acknowledgement() {
    let mut s = XdgSurface::new(1, Rect::new_empty(0, 0));
    let mut c = client();
    s.do_send_configure(&mut c);
    assert_eq!(s.requested_serial, 2);
    assert_eq!(c.events, vec![WireEvent::XdgSurfaceConfigure { self_id: 1, serial: 2 }]);
    // Only the latest serial is accepted.
    s.ack_configure(1);
    assert!(s.acked_serial.is_none());
    s.ack_configure(2);
    assert_eq!(s.acked_serial, Some(2));
}

#[test]
fn first_commit_requests_the_initial_configure() {
    let extents = Rect::new_sized(0, 0, 40, 40).unwrap();
    let mut s = XdgSurface::new(1, extents);
    let mut c = client();
    let mut pending = PendingXdgSurfaceData {
        geometry: Some(Rect::new_sized(10, 10, 20, 20).unwrap()),
    };
    s.before_apply_commit(&mut c, &mut pending);
    assert!(s.have_initial_commit);
    assert_eq!(c.events.len(), 1);
    assert!(pending.geometry.is_none());
    // The reported extents are the content extents clipped by the geometry.
    let e = s.extents;
    assert_eq!((e.x1, e.y1, e.x2, e.y2), (10, 10, 30, 30));
    // A second commit without pending changes sends nothing.
    let before = c.events.len();
    s.before_apply_commit(&mut c, &mut pending);
    assert_eq!(c.events.len(), before);
}

#[test]
fn install_attaches_the_extension_once() {
    let mut s = XdgSurface::new(1, Rect::new_empty(0, 0));
    assert!(s.install().is_ok());
    assert_eq!(s.install(), Err(XdgSurfaceError::AlreadyAttached(1)));
}

#[test]
fn session_acquisition_walks_the_bus() {
    let mut socket = DbusSocket { calls: Vec::new(), subscriptions: Vec::new(), next_handler_id: 0 };
    assert!(Session::get_request(&mut socket, None).is_err());
    assert!(Session::get_request(&mut socket, Some("c2".to_string())).is_ok());
    assert!(matches!(
        socket.calls.last().unwrap(),
        DbusCall::GetSession { session_id } if session_id == "c2"
    ));
    let path = Session::get_session_reply(&mut socket, Ok("/session/c2".to_string())).unwrap();
    assert!(matches!(
        socket.calls.last().unwrap(),
        DbusCall::GetSeat { session_path } if session_path == "/session/c2"
    ));
    let session = Session::get_seat_reply(path, Ok("/seat/seat0".to_string())).unwrap();
    assert_eq!(session.seat, "/seat/seat0");
    assert_eq!(session.session_path, "/session/c2");
    session.take_control(&mut socket);
    assert!(matches!(
        socket.calls.last().unwrap(),
        DbusCall::TakeControl { force, .. } if *force == 0
    ));
    assert!(session.take_control_reply(&mut socket, Ok(())).is_ok());
    assert!(matches!(
        socket.calls.last().unwrap(),
        DbusCall::SetType { ty, .. } if ty == "wayland"
    ));
}

#[test]
fn session_device_and_idle_calls() {
    let mut socket = DbusSocket { calls: Vec::new(), subscriptions: Vec::new(), next_handler_id: 0 };
    let session = Session { seat: "/seat/seat0".to_string(), session_path: "/session/c2".to_string() };
    // Device number 226:0, packed in the kernel's layout.
    let dev: u64 = 226 << 8;
    session.get_device(&mut socket, dev);
    assert!(matches!(
        socket.calls.last().unwrap(),
        DbusCall::TakeDevice { major: 226, minor: 0, .. }
    ));
    session.device_paused(&mut socket, 226, 1);
    assert!(matches!(
        socket.calls.last().unwrap(),
        DbusCall::PauseDeviceComplete { major: 226, minor: 1, .. }
    ));
    session.switch_to(&mut socket, 3);
    assert!(matches!(socket.calls.last().unwrap(), DbusCall::SwitchTo { vtnr: 3, .. }));
    session.set_idle_hint(&mut socket, true);
    assert!(matches!(socket.calls.last().unwrap(), DbusCall::SetIdleHint { idle: 1, .. }));
    let h1 = session.on_pause(&mut socket).unwrap();
    let h2 = session.on_resume(&mut socket).unwrap();
    assert_ne!(h1.id, h2.id);
    assert_eq!(socket.subscriptions.len(), 2);
}

#[test]
fn modified_keysym_parsing() {
    let parser = ModifiedKeysymParser;
    let span = Span { lo: 0, hi: 10 };
    let tbl: Vec<(Vec<u8>, u32)> = vec![(b"t".to_vec(), 0x74), (b"F1".to_vec(), 0xffbe)];
    let ok = parser.parse_string(&tbl, span, &b"ctrl-alt-t".to_vec()).unwrap();
    assert_eq!(ok, ModifiedKeySym { mods: 4 | 8, sym: 0x74 });
    let ok2 = parser.parse_string(&tbl, span, &b"logo-shift-F1".to_vec()).unwrap();
    assert_eq!(ok2, ModifiedKeySym { mods: 64 | 1, sym: 0xffbe });
    let missing = parser.parse_string(&tbl, span, &b"ctrl-alt".to_vec()).unwrap_err();
    assert!(matches!(missing.0, ModifiedKeysymParserError::MissingSym));
    assert_eq!(missing.1, span);
    let twice = parser.parse_string(&tbl, span, &b"t-F1".to_vec()).unwrap_err();
    assert!(matches!(twice.0, ModifiedKeysymParserError::MoreThanOneSym));
    let unknown = parser.parse_string(&tbl, span, &b"ctrl-nope".to_vec()).unwrap_err();
    match unknown.0 {
        ModifiedKeysymParserError::UnknownKeysym(p) => assert_eq!(p, b"nope".to_vec()),
        _ => panic!("expected an unknown keysym"),
    }
}

#[test]
fn session_acquisition_error_paths() {
    let mut socket = DbusSocket { calls: Vec::new(), subscriptions: Vec::new(), next_handler_id: 0 };
    let bus_err = || jay::logind::DbusError { msg: "no reply".to_string() };
    let e = Session::get_session_reply(&mut socket, Err(bus_err())).unwrap_err();
    assert!(matches!(e, jay::logind::LogindError::GetSession(_)));
    let e = Session::get_seat_reply("/session/c2".to_string(), Err(bus_err())).unwrap_err();
    assert!(matches!(e, jay::logind::LogindError::GetSeatName(_)));
    let session = Session { seat: "s".to_string(), session_path: "p".to_string() };
    let calls_before = socket.calls.len();
    let e = session.take_control_reply(&mut socket, Err(bus_err())).unwrap_err();
    assert!(matches!(e, jay::logind::LogindError::TakeControl(_)));
    assert_eq!(socket.calls.len(), calls_before);
}
