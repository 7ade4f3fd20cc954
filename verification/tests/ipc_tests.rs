use tail::ipc::{HyprlandEvent, HyprlandIpc, IpcError};

#[test]
fn test_parse_active_window_event() {
    let event_str = "activewindow>>firefox,GitHub - Mozilla Firefox";
    let event = HyprlandIpc::parse_event(event_str);

    assert!(event.is_some());
    match event.unwrap() {
        HyprlandEvent::ActiveWindowChanged { class, title } => {
            assert_eq!(class, "firefox");
            assert_eq!(title, "GitHub - Mozilla Firefox");
        }
        _ => panic!("Wrong event type"),
    }
}

#[test]
fn test_parse_open_window_event() {
    let event_str = "openwindow>>0x12345,1,kitty,Terminal";
    let event = HyprlandIpc::parse_event(event_str);

    assert!(event.is_some());
    match event.unwrap() {
        HyprlandEvent::WindowOpened { address, workspace, class, title } => {
            assert_eq!(address, "0x12345");
            assert_eq!(workspace, "1");
            assert_eq!(class, "kitty");
            assert_eq!(title, "Terminal");
        }
        _ => panic!("Wrong event type"),
    }
}

#[test]
fn test_parse_close_window_event() {
    let event_str = "closewindow>>0x12345";
    let event = HyprlandIpc::parse_event(event_str);

    assert!(event.is_some());
    match event.unwrap() {
        HyprlandEvent::WindowClosed { address } => {
            assert_eq!(address, "0x12345");
        }
        _ => panic!("Wrong event type"),
    }
}

#[test]
fn test_parse_workspace_event() {
    let event_str = "workspace>>2";
    let event = HyprlandIpc::parse_event(event_str);

    assert!(event.is_some());
    match event.unwrap() {
        HyprlandEvent::WorkspaceChanged { name } => {
            assert_eq!(name, "2");
        }
        _ => panic!("Wrong event type"),
    }
}

#[test]
fn test_parse_window_title_v2_event() {
    let event_str = "windowtitlev2>>0x12345,New Title";
    let event = HyprlandIpc::parse_event(event_str);

    assert!(event.is_some());
    match event.unwrap() {
        HyprlandEvent::WindowTitleChanged { address, title } => {
            assert_eq!(address, "0x12345");
            assert_eq!(title, "New Title");
        }
        _ => panic!("Wrong event type"),
    }
}

#[test]
fn test_parse_invalid_event() {
    let event_str = "invalid>>data";
    let event = HyprlandIpc::parse_event(event_str);
    assert!(event.is_none());
}

#[test]
fn test_parse_malformed_event() {
    let event_str = "activewindow";
    let event = HyprlandIpc::parse_event(event_str);
    assert!(event.is_none());
}

#[test]
fn test_parse_active_window_with_comma_in_title() {
    let event_str = "activewindow>>firefox,GitHub - Mozilla Firefox, Pull Request #123";
    let event = HyprlandIpc::parse_event(event_str);

    assert!(event.is_some());
    match event.unwrap() {
        HyprlandEvent::ActiveWindowChanged { class, title } => {
            assert_eq!(class, "firefox");
            assert_eq!(title, "GitHub - Mozilla Firefox, Pull Request #123");
        }
        _ => panic!("Wrong event type"),
    }
}

#[test]
fn parse_rejects_a_second_separator() {
    assert!(HyprlandIpc::parse_event("workspace>>2>>3").is_none());
    match HyprlandIpc::parse_event("workspace>>>2") {
        Some(HyprlandEvent::WorkspaceChanged { name }) => assert_eq!(name, ">2"),
        _ => panic!("Wrong event type"),
    }
}

#[test]
fn parse_open_window_needs_three_commas() {
    assert!(HyprlandIpc::parse_event("openwindow>>0x1,2,kitty").is_none());
    match HyprlandIpc::parse_event("openwindow>>0x1,2,kitty,a,b") {
        Some(HyprlandEvent::WindowOpened { title, .. }) => assert_eq!(title, "a,b"),
        _ => panic!("Wrong event type"),
    }
}

#[test]
fn parse_other_events() {
    match HyprlandIpc::parse_event("workspacev2>>3,dev") {
        Some(HyprlandEvent::WorkspaceChanged { name }) => assert_eq!(name, "3,dev"),
        _ => panic!("Wrong event type"),
    }
    match HyprlandIpc::parse_event("windowtitle>>0xabc") {
        Some(HyprlandEvent::WindowTitleChanged { address, title }) => {
            assert_eq!(address, "0xabc");
            assert_eq!(title, "");
        }
        _ => panic!("Wrong event type"),
    }
    assert!(HyprlandIpc::parse_event("windowtitlev2>>0xabc").is_none());
    assert!(HyprlandIpc::parse_event("activewindow>>kitty").is_none());
}

#[test]
fn event_from_line_trims_white_space() {
    match HyprlandIpc::event_from_line("  closewindow>>0x1 \n") {
        Some(HyprlandEvent::WindowClosed { address }) => assert_eq!(address, "0x1"),
        _ => panic!("Wrong event type"),
    }
}

#[test]
fn socket_path_uses_runtime_dir_or_tmp() {
    let p = HyprlandIpc::socket_path_for(Some("abc"), Some("/run/user/1000")).unwrap();
    assert_eq!(p, "/run/user/1000/hypr/abc/.socket2.sock");
    let p = HyprlandIpc::socket_path_for(Some("abc"), None).unwrap();
    assert_eq!(p, "/tmp/hypr/abc/.socket2.sock");
    assert!(matches!(HyprlandIpc::socket_path_for(None, Some("/run")), Err(IpcError::SocketNotFound)));
}

#[test]
fn open_requires_an_existing_socket() {
    assert!(matches!(HyprlandIpc::open("/nope".to_string(), false), Err(IpcError::SocketNotFound)));
    let ipc = HyprlandIpc::open("/tmp/x.sock".to_string(), true).ok().unwrap();
    assert_eq!(ipc.socket_path(), "/tmp/x.sock");
}
