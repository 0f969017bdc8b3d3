use vstd::prelude::*;
use vstd::utf8::encode_utf8;
use crate::color::color_fields_splittable;
use crate::geometry::{overlay_origin, overlay_origin_of, paint_fills, paint_plan, rect_in_i32, Fill, Rect};
use crate::settings::{get_hotkey_modifiers, modifier_mask, parse_virtual_key, uppercase, virtual_key_of, Settings};

verus! {

/// Window message posted when the settings were replaced from outside.
pub const WM_UPDATE_SETTINGS: u32 = 0x0400 + 1;
/// Window message posted when the overlay was switched on or off from outside.
pub const WM_TOGGLE_VISIBILITY: u32 = 0x0400 + 2;
/// Window message posted when the application is asked to quit.
pub const WM_EXIT_APPLICATION: u32 = 0x0400 + 3;
/// Window message of the notification-area icon.
pub const WM_TRAYICON: u32 = 0x0400 + 10;

/// Commands of the notification-area menu.
pub const MENU_OPEN_SETTINGS: i32 = 101;
pub const MENU_TOGGLE_OVERLAY: i32 = 102;
pub const MENU_TOGGLE_AUTOSTART: i32 = 103;
pub const MENU_EXIT: i32 = 104;

/// What happened to the overlay window, with what the decision needs.
#[derive(Clone, Copy, PartialEq, Eq, Debug)]
pub enum WindowEvent {
    /// The window was created.
    Create,
    /// The client area, whose rectangle is given, must be painted.
    Paint { client: Rect },
    /// The global hotkey was pressed.
    Hotkey,
    /// The notification-area icon was right-clicked.
    TrayRightClick,
    /// The notification-area icon was left-clicked.
    TrayLeftClick,
    /// Another notification from the notification-area icon.
    TrayOther,
    /// A command was chosen from the notification-area menu (0: none).
    MenuCommand(i32),
    /// The settings were replaced; `monitor` is the area of the monitor
    /// that holds the window.
    SettingsUpdated { monitor: Rect },
    /// The overlay was switched on or off from outside.
    VisibilityToggled,
    /// The application is asked to quit.
    ExitRequested,
    /// The window is being destroyed.
    Destroy,
    /// Any other message.
    Other,
}

/// What the window procedure must do, in order.
#[derive(Clone, Copy, PartialEq, Eq, Debug)]
pub enum WindowAction {
    UnregisterHotkey,
    RegisterHotkey { modifiers: u32, key: u32 },
    AddTrayIcon,
    RemoveTrayIcon,
    Fill(Fill),
    SaveSettings,
    SetAutostart(bool),
    /// Show the window without activating it (`true`) or hide it.
    Show(bool),
    Invalidate,
    /// Pop up the notification-area menu with the two check marks given.
    ShowTrayMenu { overlay_checked: bool, autostart_checked: bool },
    OpenSettingsPage,
    MoveWindow { x: i64, y: i64 },
    DestroyWindow,
    PostQuit,
    DefaultHandling,
}

/// Re-registering the hotkey from the settings: the old registration goes,
/// the configured one comes.
pub open spec fn hotkey_actions(s: Settings) -> Seq<WindowAction> {
    seq![
        WindowAction::UnregisterHotkey,
        WindowAction::RegisterHotkey {
            modifiers: modifier_mask(s),
            key: virtual_key_of(uppercase(s.hotkey_key@)),
        },
    ]
}

pub open spec fn with_enabled(s: Settings, enabled: bool) -> Settings {
    Settings { enabled, ..s }
}

pub open spec fn with_autostart(s: Settings, autostart: bool) -> Settings {
    Settings { autostart, ..s }
}

/// The settings after the event.
pub open spec fn settings_after(s: Settings, e: WindowEvent) -> Settings {
    match e {
        WindowEvent::Hotkey => with_enabled(s, !s.enabled),
        WindowEvent::MenuCommand(c) => if c == MENU_TOGGLE_OVERLAY {
            with_enabled(s, !s.enabled)
        } else if c == MENU_TOGGLE_AUTOSTART {
            with_autostart(s, !s.autostart)
        } else {
            s
        },
        _ => s,
    }
}

/// Switching the overlay on or off: store, show or hide, repaint.
pub open spec fn toggle_actions(now_enabled: bool) -> Seq<WindowAction> {
    seq![WindowAction::SaveSettings, WindowAction::Show(now_enabled), WindowAction::Invalidate]
}

/// What the window does for the event, given the settings before it.
pub open spec fn window_actions(s: Settings, e: WindowEvent) -> Seq<WindowAction> {
    match e {
        WindowEvent::Create => hotkey_actions(s).push(WindowAction::AddTrayIcon),
        WindowEvent::Paint { client } => paint_fills(client, s).map_values(|f: Fill| WindowAction::Fill(f)),
        WindowEvent::Hotkey => toggle_actions(!s.enabled),
        WindowEvent::TrayRightClick => seq![
            WindowAction::ShowTrayMenu { overlay_checked: s.enabled, autostart_checked: s.autostart },
        ],
        WindowEvent::TrayLeftClick => seq![WindowAction::OpenSettingsPage],
        WindowEvent::TrayOther => Seq::empty(),
        WindowEvent::MenuCommand(c) => if c == MENU_OPEN_SETTINGS {
            seq![WindowAction::OpenSettingsPage]
        } else if c == MENU_TOGGLE_OVERLAY {
            toggle_actions(!s.enabled)
        } else if c == MENU_TOGGLE_AUTOSTART {
            seq![WindowAction::SaveSettings, WindowAction::SetAutostart(!s.autostart)]
        } else if c == MENU_EXIT {
            seq![WindowAction::DestroyWindow]
        } else {
            Seq::empty()
        },
        WindowEvent::SettingsUpdated { monitor } => {
            let pos = overlay_origin_of(monitor, s.offset_x as int, s.offset_y as int);
            hotkey_actions(s) + seq![
                WindowAction::MoveWindow { x: pos.0 as i64, y: pos.1 as i64 },
                WindowAction::Show(s.enabled),
                WindowAction::Invalidate,
            ]
        },
        WindowEvent::VisibilityToggled => seq![WindowAction::Show(s.enabled), WindowAction::Invalidate],
        WindowEvent::ExitRequested => seq![WindowAction::DestroyWindow],
        WindowEvent::Destroy => seq![WindowAction::RemoveTrayIcon, WindowAction::PostQuit],
        WindowEvent::Other => seq![WindowAction::DefaultHandling],
    }
}

/// What the event needs so that it can be handled: rectangles that fit in a
/// `RECT`, and, when an enabled overlay is painted, a colour text that
/// `parse_hex_color` can cut into its fields.
pub open spec fn event_ok(s: Settings, e: WindowEvent) -> bool {
    match e {
        WindowEvent::Paint { client } => rect_in_i32(client) && (s.enabled ==> color_fields_splittable(
            encode_utf8(s.color@),
        )),
        WindowEvent::SettingsUpdated { monitor } => rect_in_i32(monitor),
        _ => true,
    }
}

fn push_hotkey(actions: &mut Vec<WindowAction>, s: &Settings)
    ensures
        final(actions)@ == old(actions)@ + hotkey_actions(*s),
{
    actions.push(WindowAction::UnregisterHotkey);
    let modifiers = get_hotkey_modifiers(s);
    let key = parse_virtual_key(s.hotkey_key.as_str());
    if key != 0 {
        actions.push(WindowAction::RegisterHotkey { modifiers, key });
    }
    assert(actions@ =~= old(actions)@ + hotkey_actions(*s));
}

fn toggle_overlay(settings: &mut Settings) -> (actions: Vec<WindowAction>)
    ensures
        *final(settings) == with_enabled(*old(settings), !old(settings).enabled),
        actions@ == toggle_actions(!old(settings).enabled),
{
    settings.enabled = !settings.enabled;
    let mut actions = Vec::new();
    actions.push(WindowAction::SaveSettings);
    actions.push(WindowAction::Show(settings.enabled));
    actions.push(WindowAction::Invalidate);
    assert(actions@ =~= toggle_actions(!old(settings).enabled));
    actions
}

fn paint_actions(client: Rect, s: &Settings) -> (actions: Vec<WindowAction>)
    requires
        rect_in_i32(client),
        s.enabled ==> color_fields_splittable(encode_utf8(s.color@)),
    ensures
        actions@ == paint_fills(client, *s).map_values(|f: Fill| WindowAction::Fill(f)),
{
    let fills = paint_plan(client, s);
    let mut actions: Vec<WindowAction> = Vec::new();
    let n = fills.len();
    let mut i: usize = 0;
    while i < n
        invariant
            n == fills@.len(),
            i <= n,
            actions@ =~= fills@.take(i as int).map_values(|f: Fill| WindowAction::Fill(f)),
        decreases n - i,
    {
        actions.push(WindowAction::Fill(fills[i]));
        assert(fills@.take(i + 1) =~= fills@.take(i as int).push(fills@[i as int]));
        i = i + 1;
    }
    assert(fills@.take(n as int) =~= fills@);
    actions
}

/// Decides what the overlay window does for one event and how its settings
/// change (see `window_actions` and `settings_after`).
pub fn handle_window_event(settings: &mut Settings, event: WindowEvent) -> (actions: Vec<WindowAction>)
    requires
        event_ok(*old(settings), event),
    ensures
        *final(settings) == settings_after(*old(settings), event),
        actions@ == window_actions(*old(settings), event),
{
    match event {
        WindowEvent::Create => {
            let mut actions = Vec::new();
            push_hotkey(&mut actions, settings);
            actions.push(WindowAction::AddTrayIcon);
            assert(actions@ =~= window_actions(*old(settings), event));
            actions
        },
        WindowEvent::Paint { client } => paint_actions(client, settings),
        WindowEvent::Hotkey => toggle_overlay(settings),
        WindowEvent::TrayRightClick => {
            let mut actions = Vec::new();
            actions.push(WindowAction::ShowTrayMenu {
                overlay_checked: settings.enabled,
                autostart_checked: settings.autostart,
            });
            assert(actions@ =~= window_actions(*old(settings), event));
            actions
        },
        WindowEvent::TrayLeftClick => {
            let mut actions = Vec::new();
            actions.push(WindowAction::OpenSettingsPage);
            assert(actions@ =~= window_actions(*old(settings), event));
            actions
        },
        WindowEvent::TrayOther => {
            let actions = Vec::new();
            assert(actions@ =~= window_actions(*old(settings), event));
            actions
        },
        WindowEvent::MenuCommand(c) => {
            let mut actions = Vec::new();
            if c == MENU_OPEN_SETTINGS {
                actions.push(WindowAction::OpenSettingsPage);
            } else if c == MENU_TOGGLE_OVERLAY {
                actions = toggle_overlay(settings);
            } else if c == MENU_TOGGLE_AUTOSTART {
                settings.autostart = !settings.autostart;
                actions.push(WindowAction::SaveSettings);
                actions.push(WindowAction::SetAutostart(settings.autostart));
            } else if c == MENU_EXIT {
                actions.push(WindowAction::DestroyWindow);
            }
            assert(actions@ =~= window_actions(*old(settings), event));
            actions
        },
        WindowEvent::SettingsUpdated { monitor } => {
            let mut actions = Vec::new();
            push_hotkey(&mut actions, settings);
            let (x, y) = overlay_origin(monitor, settings.offset_x, settings.offset_y);
            actions.push(WindowAction::MoveWindow { x, y });
            actions.push(WindowAction::Show(settings.enabled));
            actions.push(WindowAction::Invalidate);
            assert(actions@ =~= window_actions(*old(settings), event));
            actions
        },
        WindowEvent::VisibilityToggled => {
            let mut actions = Vec::new();
            actions.push(WindowAction::Show(settings.enabled));
            actions.push(WindowAction::Invalidate);
            assert(actions@ =~= window_actions(*old(settings), event));
            actions
        },
        WindowEvent::ExitRequested => {
            let mut actions = Vec::new();
            actions.push(WindowAction::DestroyWindow);
            assert(actions@ =~= window_actions(*old(settings), event));
            actions
        },
        WindowEvent::Destroy => {
            let mut actions = Vec::new();
            actions.push(WindowAction::RemoveTrayIcon);
            actions.push(WindowAction::PostQuit);
            assert(actions@ =~= window_actions(*old(settings), event));
            actions
        },
        WindowEvent::Other => {
            let mut actions = Vec::new();
            actions.push(WindowAction::DefaultHandling);
            assert(actions@ =~= window_actions(*old(settings), event));
            actions
        },
    }
}

} // verus!
