//! What a window message sent to the switcher's window asks for.
use vstd::prelude::*;

use crate::app::{
    IDM_CONFIGURE, IDM_EXIT, IDM_STARTUP, WM_USER_REGISTER_TRAYICON, WM_USER_SWITCH_APPS,
    WM_USER_SWITCH_APPS_CANCEL, WM_USER_SWITCH_APPS_DONE, WM_USER_SWITCH_WINDOWS,
    WM_USER_SWITCH_WINDOWS_CANCEL, WM_USER_SWITCH_WINDOWS_DONE, WM_USER_TRAYICON,
};

verus! {

/// Win32 message numbers and the hit-test code that the switcher handles.
pub const WM_ERASEBKGND: u32 = 0x0014;
pub const WM_NCHITTEST: u32 = 0x0084;
pub const WM_COMMAND: u32 = 0x0111;
pub const WM_MOUSEMOVE: u32 = 0x0200;
pub const WM_LBUTTONUP: u32 = 0x0202;
pub const WM_RBUTTONUP: u32 = 0x0205;
pub const HTCLIENT: isize = 1;

/// An entry of the tray icon's menu.
#[derive(Clone, Copy, Debug, PartialEq, Eq, Structural)]
pub enum MenuCommand {
    Exit,
    Startup,
    Configure,
}

/// What a window message asks of the switcher.
#[derive(Clone, Copy, Debug, PartialEq, Eq, Structural)]
pub enum Message {
    /// An event of the tray icon; `show_menu` when it was a click of either
    /// mouse button.
    TrayIcon { show_menu: bool },
    /// Register the tray icon again.
    RegisterTrayIcon,
    SwitchApps { reverse: bool },
    SwitchAppsDone,
    SwitchAppsCancel,
    /// The switch-windows hotkey; `hint` is the foreground window when the
    /// key was pressed, or null.
    SwitchWindows { reverse: bool, hint: usize },
    SwitchWindowsDone,
    SwitchWindowsCancel,
    HitTest,
    MouseMove,
    LeftButtonUp,
    Command(MenuCommand),
    EraseBackground,
    /// Left to the default window procedure.
    Unhandled,
}

/// The menu command of a `WM_COMMAND` whose `wparam` is `wparam`: the low
/// word is the command and the high word of the low 32 bits is zero for a
/// menu.
pub open spec fn menu_command_of(wparam: usize) -> Option<MenuCommand> {
    let value = wparam as u32;
    if value / 0x10000 != 0 {
        None
    } else if value % 0x10000 == IDM_EXIT {
        Some(MenuCommand::Exit)
    } else if value % 0x10000 == IDM_STARTUP {
        Some(MenuCommand::Startup)
    } else if value % 0x10000 == IDM_CONFIGURE {
        Some(MenuCommand::Configure)
    } else {
        None
    }
}

/// What the message `msg` with `wparam` and `lparam` asks; `taskbar_created`
/// is the message that announces a new taskbar. An `lparam` of 1 reverses a
/// switch; the low 32 bits of the `lparam` of a tray icon event are the mouse
/// message.
pub open spec fn message_of(msg: u32, wparam: usize, lparam: isize, taskbar_created: u32) -> Message {
    if msg == WM_USER_TRAYICON {
        let keycode = lparam as u32;
        Message::TrayIcon { show_menu: keycode == WM_LBUTTONUP || keycode == WM_RBUTTONUP }
    } else if msg == WM_USER_SWITCH_APPS {
        Message::SwitchApps { reverse: lparam == 1 }
    } else if msg == WM_USER_SWITCH_APPS_DONE {
        Message::SwitchAppsDone
    } else if msg == WM_USER_SWITCH_APPS_CANCEL {
        Message::SwitchAppsCancel
    } else if msg == WM_USER_SWITCH_WINDOWS {
        Message::SwitchWindows { reverse: lparam == 1, hint: wparam }
    } else if msg == WM_USER_SWITCH_WINDOWS_DONE {
        Message::SwitchWindowsDone
    } else if msg == WM_USER_SWITCH_WINDOWS_CANCEL {
        Message::SwitchWindowsCancel
    } else if msg == WM_NCHITTEST {
        Message::HitTest
    } else if msg == WM_MOUSEMOVE {
        Message::MouseMove
    } else if msg == WM_LBUTTONUP {
        Message::LeftButtonUp
    } else if msg == WM_COMMAND {
        match menu_command_of(wparam) {
            Some(c) => Message::Command(c),
            None => Message::Unhandled,
        }
    } else if msg == WM_ERASEBKGND {
        Message::EraseBackground
    } else if msg == WM_USER_REGISTER_TRAYICON || msg == taskbar_created {
        Message::RegisterTrayIcon
    } else {
        Message::Unhandled
    }
}

/// Decodes the menu command of a `WM_COMMAND`.
fn decode_command(wparam: usize) -> (res: Option<MenuCommand>)
    ensures
        res == menu_command_of(wparam),
{
    let value = wparam as u32;
    let kind = ((value >> 16u32) & 0xffffu32) as u16;
    let id = value & 0xffffu32;
    proof {
        assert(kind == 0 <==> value / 0x10000 == 0) by (bit_vector)
            requires
                kind == ((value >> 16u32) & 0xffffu32) as u16,
        ;
        assert(id == value % 0x10000) by (bit_vector)
            requires
                id == value & 0xffffu32,
        ;
    }
    if kind == 0 {
        if id == IDM_EXIT {
            Some(MenuCommand::Exit)
        } else if id == IDM_STARTUP {
            Some(MenuCommand::Startup)
        } else if id == IDM_CONFIGURE {
            Some(MenuCommand::Configure)
        } else {
            None
        }
    } else {
        None
    }
}

/// Decodes the message `msg` with `wparam` and `lparam`.
pub fn decode_message(msg: u32, wparam: usize, lparam: isize, taskbar_created: u32) -> (res:
    Message)
    ensures
        res == message_of(msg, wparam, lparam, taskbar_created),
{
    if msg == WM_USER_TRAYICON {
        let keycode = lparam as u32;
        Message::TrayIcon { show_menu: keycode == WM_LBUTTONUP || keycode == WM_RBUTTONUP }
    } else if msg == WM_USER_SWITCH_APPS {
        Message::SwitchApps { reverse: lparam == 1 }
    } else if msg == WM_USER_SWITCH_APPS_DONE {
        Message::SwitchAppsDone
    } else if msg == WM_USER_SWITCH_APPS_CANCEL {
        Message::SwitchAppsCancel
    } else if msg == WM_USER_SWITCH_WINDOWS {
        Message::SwitchWindows { reverse: lparam == 1, hint: wparam }
    } else if msg == WM_USER_SWITCH_WINDOWS_DONE {
        Message::SwitchWindowsDone
    } else if msg == WM_USER_SWITCH_WINDOWS_CANCEL {
        Message::SwitchWindowsCancel
    } else if msg == WM_NCHITTEST {
        Message::HitTest
    } else if msg == WM_MOUSEMOVE {
        Message::MouseMove
    } else if msg == WM_LBUTTONUP {
        Message::LeftButtonUp
    } else if msg == WM_COMMAND {
        match decode_command(wparam) {
            Some(c) => Message::Command(c),
            None => Message::Unhandled,
        }
    } else if msg == WM_ERASEBKGND {
        Message::EraseBackground
    } else if msg == WM_USER_REGISTER_TRAYICON || msg == taskbar_created {
        Message::RegisterTrayIcon
    } else {
        Message::Unhandled
    }
}

impl Message {
    /// The result that the window procedure returns at once for this
    /// message, or None where it calls the default window procedure after
    /// handling it.
    pub fn immediate_result(&self) -> (res: Option<isize>)
        ensures
            res == (match *self {
                Message::TrayIcon { .. } => Some(0isize),
                Message::HitTest => Some(HTCLIENT),
                Message::EraseBackground => Some(0isize),
                _ => None,
            }),
    {
        match self {
            Message::TrayIcon { .. } => Some(0),
            Message::HitTest => Some(HTCLIENT),
            Message::EraseBackground => Some(0),
            _ => None,
        }
    }
}


/// A switch message (apps or windows) is reverse exactly when its lparam is
/// 1, whatever its wparam; the switch-windows message carries its wparam as
/// the hint.
pub proof fn lemma_switch_direction(wparam: usize, lparam: isize, taskbar_created: u32)
    ensures
        message_of(WM_USER_SWITCH_WINDOWS, wparam, lparam, taskbar_created) matches Message::SwitchWindows {
            reverse,
            hint,
        } && reverse == (lparam == 1) && hint == wparam,
        message_of(WM_USER_SWITCH_APPS, wparam, lparam, taskbar_created) matches Message::SwitchApps {
            reverse,
        } && reverse == (lparam == 1),
{
}

/// Of two switch-windows messages with the same lparam, both go the same
/// direction, whatever hints they carry.
pub proof fn lemma_switch_direction_ignores_hint(
    wparam1: usize,
    wparam2: usize,
    lparam: isize,
    taskbar_created: u32,
)
    ensures
        message_of(WM_USER_SWITCH_WINDOWS, wparam1, lparam, taskbar_created)->SwitchWindows_reverse
            == message_of(WM_USER_SWITCH_WINDOWS, wparam2, lparam, taskbar_created)->SwitchWindows_reverse,
        message_of(WM_USER_SWITCH_WINDOWS, wparam1, 0, taskbar_created)->SwitchWindows_reverse == false,
        message_of(WM_USER_SWITCH_WINDOWS, wparam1, 1, taskbar_created)->SwitchWindows_reverse == true,
{
}


/// A menu command is recognised exactly when the high word of the low 32 bits
/// of the wparam is zero and the low word is one of the three commands.
pub proof fn lemma_menu_commands(wparam: usize)
    ensures
        (wparam as u32) < 0x10000 && (wparam as u32) == IDM_EXIT ==> menu_command_of(wparam)
            == Some(MenuCommand::Exit),
        (wparam as u32) < 0x10000 && (wparam as u32) == IDM_STARTUP ==> menu_command_of(wparam)
            == Some(MenuCommand::Startup),
        (wparam as u32) < 0x10000 && (wparam as u32) == IDM_CONFIGURE ==> menu_command_of(wparam)
            == Some(MenuCommand::Configure),
        (wparam as u32) >= 0x10000 ==> menu_command_of(wparam) is None,
        (wparam as u32) % 0x10000 > 3 ==> menu_command_of(wparam) is None,
        (wparam as u32) % 0x10000 == 0 ==> menu_command_of(wparam) is None,
{
}

/// A tray icon event shows the menu exactly for a click of the left or the
/// right button, and the window procedure answers it at once with zero.
pub proof fn lemma_tray_icon_event(wparam: usize, lparam: isize, taskbar_created: u32)
    ensures
        message_of(WM_USER_TRAYICON, wparam, lparam, taskbar_created) matches Message::TrayIcon {
            show_menu,
        } && show_menu == ((lparam as u32) == 0x0202 || (lparam as u32) == 0x0205),
{
}

} // verus!
