use window_switcher::app::{
    IDM_CONFIGURE, IDM_EXIT, IDM_STARTUP, WM_USER_REGISTER_TRAYICON, WM_USER_SWITCH_APPS,
    WM_USER_SWITCH_APPS_CANCEL, WM_USER_SWITCH_APPS_DONE, WM_USER_SWITCH_WINDOWS,
    WM_USER_SWITCH_WINDOWS_CANCEL, WM_USER_SWITCH_WINDOWS_DONE, WM_USER_TRAYICON,
};
use window_switcher::message::{
    decode_message, MenuCommand, Message, HTCLIENT, WM_COMMAND, WM_ERASEBKGND, WM_LBUTTONUP,
    WM_MOUSEMOVE, WM_NCHITTEST, WM_RBUTTONUP,
};

const TASKBAR_CREATED: u32 = 0xC123;

#[test]
fn user_message_numbers() {
    assert_eq!(WM_USER_TRAYICON, 6000);
    assert_eq!(WM_USER_REGISTER_TRAYICON, 6001);
    assert_eq!(WM_USER_SWITCH_APPS, 6010);
    assert_eq!(WM_USER_SWITCH_APPS_DONE, 6011);
    assert_eq!(WM_USER_SWITCH_APPS_CANCEL, 6012);
    assert_eq!(WM_USER_SWITCH_WINDOWS, 6020);
    assert_eq!(WM_USER_SWITCH_WINDOWS_DONE, 6021);
    assert_eq!(WM_USER_SWITCH_WINDOWS_CANCEL, 6022);
}

#[test]
fn tray_icon_clicks_show_menu() {
    let m = decode_message(WM_USER_TRAYICON, 0, WM_LBUTTONUP as isize, TASKBAR_CREATED);
    assert_eq!(m, Message::TrayIcon { show_menu: true });
    let m = decode_message(WM_USER_TRAYICON, 0, WM_RBUTTONUP as isize, TASKBAR_CREATED);
    assert_eq!(m, Message::TrayIcon { show_menu: true });
    let m = decode_message(WM_USER_TRAYICON, 0, WM_MOUSEMOVE as isize, TASKBAR_CREATED);
    assert_eq!(m, Message::TrayIcon { show_menu: false });
    // only the low 32 bits of the lparam are the mouse message
    let high = ((1i64 << 40) + WM_LBUTTONUP as i64) as isize;
    let m = decode_message(WM_USER_TRAYICON, 0, high, TASKBAR_CREATED);
    assert_eq!(m, Message::TrayIcon { show_menu: true });
    assert_eq!(m.immediate_result(), Some(0));
}

#[test]
fn switch_messages() {
    assert_eq!(decode_message(WM_USER_SWITCH_APPS, 0, 1, 0), Message::SwitchApps { reverse: true });
    assert_eq!(decode_message(WM_USER_SWITCH_APPS, 0, 0, 0), Message::SwitchApps { reverse: false });
    assert_eq!(decode_message(WM_USER_SWITCH_APPS, 0, 2, 0), Message::SwitchApps { reverse: false });
    assert_eq!(decode_message(WM_USER_SWITCH_APPS_DONE, 0, 0, 0), Message::SwitchAppsDone);
    assert_eq!(decode_message(WM_USER_SWITCH_APPS_CANCEL, 0, 0, 0), Message::SwitchAppsCancel);
    assert_eq!(
        decode_message(WM_USER_SWITCH_WINDOWS, 77, 1, 0),
        Message::SwitchWindows { reverse: true, hint: 77 }
    );
    assert_eq!(decode_message(WM_USER_SWITCH_WINDOWS_DONE, 0, 0, 0), Message::SwitchWindowsDone);
    assert_eq!(decode_message(WM_USER_SWITCH_WINDOWS_CANCEL, 0, 0, 0), Message::SwitchWindowsCancel);
    assert_eq!(Message::SwitchAppsDone.immediate_result(), None);
}

#[test]
fn window_messages() {
    let hit = decode_message(WM_NCHITTEST, 0, 0, TASKBAR_CREATED);
    assert_eq!(hit, Message::HitTest);
    assert_eq!(hit.immediate_result(), Some(HTCLIENT));
    assert_eq!(HTCLIENT, 1);
    let erase = decode_message(WM_ERASEBKGND, 0, 0, TASKBAR_CREATED);
    assert_eq!(erase, Message::EraseBackground);
    assert_eq!(erase.immediate_result(), Some(0));
    assert_eq!(decode_message(WM_MOUSEMOVE, 0, 0, TASKBAR_CREATED), Message::MouseMove);
    assert_eq!(decode_message(WM_LBUTTONUP, 0, 0, TASKBAR_CREATED), Message::LeftButtonUp);
    assert_eq!(decode_message(0x0010, 0, 0, TASKBAR_CREATED), Message::Unhandled);
    assert_eq!(Message::Unhandled.immediate_result(), None);
}

#[test]
fn menu_commands() {
    assert_eq!(
        decode_message(WM_COMMAND, IDM_EXIT as usize, 0, TASKBAR_CREATED),
        Message::Command(MenuCommand::Exit)
    );
    assert_eq!(
        decode_message(WM_COMMAND, IDM_STARTUP as usize, 0, TASKBAR_CREATED),
        Message::Command(MenuCommand::Startup)
    );
    assert_eq!(
        decode_message(WM_COMMAND, IDM_CONFIGURE as usize, 0, TASKBAR_CREATED),
        Message::Command(MenuCommand::Configure)
    );
    // a notification code in the high word is not a menu command
    assert_eq!(decode_message(WM_COMMAND, 0x1_0001, 0, TASKBAR_CREATED), Message::Unhandled);
    assert_eq!(decode_message(WM_COMMAND, 4, 0, TASKBAR_CREATED), Message::Unhandled);
    // bits above the low 32 are dropped
    assert_eq!(
        decode_message(WM_COMMAND, ((1u64 << 40) + 2) as usize, 0, TASKBAR_CREATED),
        Message::Command(MenuCommand::Startup)
    );
}

#[test]
fn tray_icon_registration_messages() {
    assert_eq!(decode_message(WM_USER_REGISTER_TRAYICON, 0, 0, TASKBAR_CREATED), Message::RegisterTrayIcon);
    assert_eq!(decode_message(TASKBAR_CREATED, 0, 0, TASKBAR_CREATED), Message::RegisterTrayIcon);
    // a known message wins over the taskbar message number
    assert_eq!(decode_message(WM_MOUSEMOVE, 0, 0, WM_MOUSEMOVE), Message::MouseMove);
}
