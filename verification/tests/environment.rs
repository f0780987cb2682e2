use bypaxdpi::system::{
    check_admin_output, get_sidecar_config, sidecar_bind_address, zombie_cleanup_message,
    SIDECAR_PORT_END, SIDECAR_PORT_START,
};
use bypaxdpi::tray::{menu_action, quit_plan, tray_reaction, MenuAction, QuitPlan, TrayClick, TrayReaction};

#[test]
fn sidecar_config_results() {
    let c = get_sidecar_config(8081, true, "192.168.1.4".to_string()).unwrap();
    assert_eq!(c.port, 8081);
    assert_eq!(c.lan_ip, "192.168.1.4");
    assert_eq!(c.bind_address, "0.0.0.0");
    let c = get_sidecar_config(51000, false, "10.0.0.1".to_string()).unwrap();
    assert_eq!(c.bind_address, "127.0.0.1");
    match get_sidecar_config(0, true, String::new()) {
        Err(m) => assert_eq!(m, "Uygun port bulunamadı."),
        Ok(_) => panic!("no port"),
    }
    assert_eq!(sidecar_bind_address(false), "127.0.0.1");
    assert_eq!((SIDECAR_PORT_START, SIDECAR_PORT_END), (8080, 8090));
}

#[test]
fn admin_output() {
    assert!(check_admin_output(b"True\r\n"));
    assert!(check_admin_output(b"  TRUE  "));
    assert!(check_admin_output(b"true"));
    assert!(!check_admin_output(b"False\r\n"));
    assert!(!check_admin_output(b""));
    assert!(!check_admin_output(b"tru\xffe"));
    assert!(!check_admin_output(b"true true"));
}

#[test]
fn zombie_messages() {
    assert_eq!(
        zombie_cleanup_message(true, b"SUCCESS: terminated.\r\n", b"ignored"),
        "Zombi süreçler temizlendi: SUCCESS: terminated."
    );
    assert_eq!(
        zombie_cleanup_message(false, b"ignored", b"  ERROR: not found.\r\n"),
        "Zombi süreç bulunamadı (normal): ERROR: not found."
    );
    assert_eq!(
        zombie_cleanup_message(false, b"", b"bad \xff byte "),
        "Zombi süreç bulunamadı (normal): bad \u{fffd} byte"
    );
}

#[test]
fn menu_and_tray() {
    assert_eq!(menu_action("quit"), MenuAction::Quit);
    assert_eq!(menu_action("show"), MenuAction::Show);
    assert_eq!(menu_action("support"), MenuAction::Support);
    assert_eq!(menu_action("Quit"), MenuAction::Ignore);
    assert_eq!(menu_action(""), MenuAction::Ignore);
    assert_eq!(tray_reaction(false, TrayClick::Left), TrayReaction { show_window: true, start_pause: true });
    assert_eq!(tray_reaction(true, TrayClick::Left), TrayReaction { show_window: false, start_pause: false });
    assert_eq!(tray_reaction(true, TrayClick::Double), TrayReaction { show_window: true, start_pause: false });
    assert_eq!(tray_reaction(false, TrayClick::Other), TrayReaction { show_window: false, start_pause: false });
    assert_eq!(quit_plan(true), QuitPlan::CloseWindow);
    assert_eq!(quit_plan(false), QuitPlan::ExitApp);
}

#[test]
fn cleanup_message_elsewhere() {
    assert_eq!(
        bypaxdpi::system::ZOMBIE_CLEANUP_UNSUPPORTED,
        "Zombi temizleme sadece Windows'ta desteklenir."
    );
}
