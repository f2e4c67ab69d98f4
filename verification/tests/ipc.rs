use omp_launcher::ipc::create_overlay_window;
use omp_launcher::ipc::parse_command;
use omp_launcher::ipc::send_message_to_game;
use omp_launcher::ipc::IpcAction;
use omp_launcher::ipc::IpcCommand;
use omp_launcher::ipc::IpcError;
use omp_launcher::ipc::IpcHub;
use omp_launcher::ipc::OverlayWindow;
use omp_launcher::ipc::StreamRegistry;

#[test]
fn init_line() {
    assert_eq!(parse_command("init:4242\n"), IpcCommand::Init { pid: 4242 });
    assert_eq!(parse_command("init:4242"), IpcCommand::Init { pid: 4242 });
    assert_eq!(parse_command("init: 4242 \r\n"), IpcCommand::Init { pid: 4242 });
    assert_eq!(parse_command("init:-1\n"), IpcCommand::Init { pid: -1 });
    assert_eq!(parse_command("init:+7\n"), IpcCommand::Init { pid: 7 });
    assert_eq!(parse_command("init:\u{a0}7\u{2003}\n"), IpcCommand::Init { pid: 7 });
}

#[test]
fn init_line_without_a_number_is_malformed() {
    for line in ["init:\n", "init:abc\n", "init:12x\n", "init:1 2\n", "init:2147483648\n", "init:"] {
        assert_eq!(parse_command(line), IpcCommand::Malformed, "{:?}", line);
    }
}

#[test]
fn pos_line() {
    assert_eq!(
        parse_command("pos:10,20,800,600,4242\n"),
        IpcCommand::Pos { x: 10, y: 20, w: 800, h: 600, pid: 4242 }
    );
    assert_eq!(
        parse_command("pos: -10,+20,0,-600,1 \r\n"),
        IpcCommand::Pos { x: -10, y: 20, w: 0, h: -600, pid: 1 }
    );
}

#[test]
fn pos_line_needs_exactly_five_integers() {
    for line in [
        "pos:\n",
        "pos:1,2,3,4\n",
        "pos:1,2,3,4,5,6\n",
        "pos:1,2,3,4,\n",
        "pos:1, 2,3,4,5\n",
        "pos:1,2,3,4,x\n",
        "pos:1,2,3,4,5,\n",
        "pos:1;2;3;4;5\n",
        "pos:1,2,3,4,99999999999\n",
    ] {
        assert_eq!(parse_command(line), IpcCommand::Malformed, "{:?}", line);
    }
}

#[test]
fn show_and_hide_lines() {
    assert_eq!(parse_command("show_overlay:4242\n"), IpcCommand::ShowOverlay { pid: 4242 });
    assert_eq!(parse_command("hide_overlay:4242\n"), IpcCommand::HideOverlay { pid: 4242 });
    assert_eq!(parse_command("show_overlay:4242 \r\n"), IpcCommand::ShowOverlay { pid: 4242 });
    assert_eq!(parse_command("show_overlay:7:rest\n"), IpcCommand::ShowOverlay { pid: 7 });
    assert_eq!(parse_command("hide_overlay:7:\n"), IpcCommand::HideOverlay { pid: 7 });
    assert_eq!(parse_command("hide_overlay:007\n"), IpcCommand::HideOverlay { pid: 7 });
}

#[test]
fn show_and_hide_lines_without_a_number_are_malformed() {
    for line in [
        "show_overlay:\n",
        "show_overlay: 42\n",
        "show_overlay:x\n",
        "show_overlay::42\n",
        "hide_overlay:\n",
        "hide_overlay:abc\n",
        "hide_overlay:4 2\n",
    ] {
        assert_eq!(parse_command(line), IpcCommand::Malformed, "{:?}", line);
    }
}

#[test]
fn other_lines_are_unknown() {
    for line in [
        "",
        "\n",
        "hello\n",
        " init:1\n",
        "INIT:1\n",
        "init 1\n",
        "init",
        "pos",
        "show_overlay\n",
        "hide_overlay 1\n",
        "position:1,2,3,4,5\n",
        "\u{feff}init:1\n",
    ] {
        assert_eq!(parse_command(line), IpcCommand::Unknown, "{:?}", line);
    }
}

#[test]
fn overlay_lifecycle() {
    let mut hub = IpcHub::new();
    assert_eq!(hub.window(4242), None);

    let created = hub.handle_line("show_overlay:4242\n");
    assert_eq!(created, IpcAction::Create(create_overlay_window(4242)));
    let window = hub.window(4242).unwrap();
    assert!(window.label().contains("4242"));
    assert_eq!(window.label(), "omp_overlay_window:4242");
    assert_eq!((window.x, window.y), (-1000, -1000));
    assert_eq!(window.size, None);

    let placed = hub.handle_line("pos:10,20,800,600,4242\n");
    let window = hub.window(4242).unwrap();
    assert_eq!(placed, IpcAction::Place(window));
    assert_eq!(window.size, Some((800, 600)));
    assert_eq!((window.x, window.y), (-1800, -1600));
    assert_eq!(window.pid, 4242);

    assert_eq!(hub.handle_line("hide_overlay:4242\n"), IpcAction::Close { pid: 4242 });
    assert_eq!(hub.window(4242), None);

    assert_eq!(hub.handle_line("pos:10,20,800,600,4242\n"), IpcAction::Nothing);
    assert_eq!(hub.window(4242), None);
}

#[test]
fn a_created_window_is_bare_and_off_screen() {
    assert_eq!(
        create_overlay_window(7),
        OverlayWindow {
            pid: 7,
            x: -1000,
            y: -1000,
            size: None,
            transparent: true,
            decorations: false,
            always_on_top: false,
            resizable: false,
            visible: true,
            skip_taskbar: true,
        }
    );
}

#[test]
fn window_label_and_url() {
    assert_eq!(create_overlay_window(4242).label(), "omp_overlay_window:4242");
    assert_eq!(create_overlay_window(4242).url(), "index.html?attached_id=4242");
    assert_eq!(create_overlay_window(-3).label(), "omp_overlay_window:-3");
    assert_eq!(create_overlay_window(0).url(), "index.html?attached_id=0");
    assert_eq!(create_overlay_window(i32::MIN).label(), "omp_overlay_window:-2147483648");
}

#[test]
fn show_for_a_window_that_is_there_changes_nothing() {
    let mut hub = IpcHub::new();
    hub.handle_line("show_overlay:5\n");
    hub.handle_line("pos:0,0,640,480,5\n");
    let before = hub.window(5);
    assert_eq!(hub.handle_line("show_overlay:5\n"), IpcAction::Nothing);
    assert_eq!(hub.window(5), before);
}

#[test]
fn hide_without_a_window_is_reported() {
    let mut hub = IpcHub::new();
    assert_eq!(hub.handle_line("hide_overlay:5\n"), IpcAction::Missing { pid: 5 });
    hub.handle_line("show_overlay:6\n");
    assert_eq!(hub.handle_line("hide_overlay:5\n"), IpcAction::Missing { pid: 5 });
    assert!(hub.window(6).is_some());
}

#[test]
fn pos_uses_width_and_height_only() {
    let mut hub = IpcHub::new();
    hub.handle_line("show_overlay:1\n");
    hub.handle_line("pos:111,222,1,2,1\n");
    let a = hub.window(1).unwrap();
    hub.handle_line("pos:-5,9999,1,2,1\n");
    assert_eq!(hub.window(1).unwrap(), a);
    assert_eq!((a.x, a.y), (-1001, -1002));
}

#[test]
fn pos_at_the_ends_of_the_range() {
    let mut hub = IpcHub::new();
    hub.handle_line("show_overlay:1\n");
    hub.handle_line("pos:0,0,2147483647,-2147483648,1\n");
    let window = hub.window(1).unwrap();
    assert_eq!(window.x, -2147483647 - 1000);
    assert_eq!(window.y, 2147483648 - 1000);
    assert_eq!(window.size, Some((i32::MAX, i32::MIN)));
}

#[test]
fn windows_of_other_processes_are_left_alone() {
    let mut hub = IpcHub::new();
    hub.handle_line("show_overlay:1\n");
    hub.handle_line("show_overlay:2\n");
    hub.handle_line("pos:0,0,300,200,2\n");
    assert_eq!(hub.window(1), Some(create_overlay_window(1)));
    hub.handle_line("hide_overlay:1\n");
    assert_eq!(hub.window(2).unwrap().size, Some((300, 200)));
}

#[test]
fn lines_that_leave_the_windows_alone() {
    let mut hub = IpcHub::new();
    hub.handle_line("show_overlay:1\n");
    assert_eq!(hub.handle_line("init:1\n"), IpcAction::Register { pid: 1 });
    assert_eq!(hub.handle_line("what\n"), IpcAction::Unrecognized);
    assert_eq!(hub.handle_line("pos:1,2\n"), IpcAction::Nothing);
    assert_eq!(hub.handle_line("init:x\n"), IpcAction::Nothing);
    assert_eq!(hub.apply(IpcCommand::Malformed), IpcAction::Nothing);
    assert_eq!(hub.apply(IpcCommand::Unknown), IpcAction::Unrecognized);
    assert_eq!(hub.window(1), Some(create_overlay_window(1)));
}

#[test]
fn registration_and_delivery() {
    let mut hub = IpcHub::new();
    let mut streams: StreamRegistry<&str> = StreamRegistry::new();
    match hub.handle_line("init:4242\n") {
        IpcAction::Register { pid } => streams.register(pid, "connection a"),
        other => panic!("{:?}", other),
    }
    let delivery = send_message_to_game(&streams, 4242, "hello game").ok().unwrap();
    assert_eq!(*delivery.connection, "connection a");
    assert_eq!(delivery.line, b"hello game\n");
}

#[test]
fn delivery_to_an_unknown_process_fails() {
    let mut streams: StreamRegistry<u8> = StreamRegistry::new();
    assert_eq!(send_message_to_game(&streams, 9999, "x").err(), Some(IpcError::NoStreamFound));
    streams.register(4242, 1);
    assert_eq!(send_message_to_game(&streams, 9999, "x").err(), Some(IpcError::NoStreamFound));
}

#[test]
fn the_last_registration_wins() {
    let mut streams: StreamRegistry<u8> = StreamRegistry::new();
    streams.register(1, 10);
    streams.register(2, 20);
    streams.register(1, 11);
    assert_eq!(*send_message_to_game(&streams, 1, "").ok().unwrap().connection, 11);
    assert_eq!(*send_message_to_game(&streams, 2, "").ok().unwrap().connection, 20);
}

#[test]
fn a_message_is_sent_as_it_is_with_a_line_feed() {
    let mut streams: StreamRegistry<u8> = StreamRegistry::new();
    streams.register(1, 10);
    assert_eq!(send_message_to_game(&streams, 1, "").ok().unwrap().line, b"\n");
    assert_eq!(send_message_to_game(&streams, 1, "a\nb").ok().unwrap().line, b"a\nb\n");
    assert_eq!(
        send_message_to_game(&streams, 1, "\u{e9}").ok().unwrap().line,
        "\u{e9}\n".as_bytes()
    );
}

#[test]
fn ipc_error_messages() {
    assert_eq!(IpcError::NoStreamFound.message(), "no_stream_found");
    assert_eq!(
        IpcError::WriteFailed("broken pipe".to_string()).message(),
        "Failed to write to stream: broken pipe"
    );
}
