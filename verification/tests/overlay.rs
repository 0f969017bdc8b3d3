use crosshair::autostart::{error_message, registry_outcome, AutostartError, RegistryStep};
use crosshair::color::NEAR_BLACK;
use crosshair::geometry::{overlay_origin, paint_plan, Fill, Rect, BACKGROUND_COLOR};
use crosshair::settings::Settings;
use crosshair::window::{
    handle_window_event, WindowAction, WindowEvent, MENU_EXIT, MENU_OPEN_SETTINGS, MENU_TOGGLE_AUTOSTART,
    MENU_TOGGLE_OVERLAY, WM_EXIT_APPLICATION, WM_TOGGLE_VISIBILITY, WM_TRAYICON, WM_UPDATE_SETTINGS,
};

fn rect(left: i64, top: i64, right: i64, bottom: i64) -> Rect {
    Rect { left, top, right, bottom }
}

fn client() -> Rect {
    rect(0, 0, 200, 200)
}

#[test]
fn custom_messages() {
    assert_eq!(WM_UPDATE_SETTINGS, 0x401);
    assert_eq!(WM_TOGGLE_VISIBILITY, 0x402);
    assert_eq!(WM_EXIT_APPLICATION, 0x403);
    assert_eq!(WM_TRAYICON, 0x40A);
}

#[test]
fn default_crosshair_geometry() {
    let s = Settings::default();
    let fills = paint_plan(client(), &s);
    let cyan = 0x00FF_FF00;
    assert_eq!(
        fills,
        vec![
            Fill { rect: client(), color: BACKGROUND_COLOR },
            Fill { rect: rect(88, 99, 96, 101), color: cyan },
            Fill { rect: rect(104, 99, 112, 101), color: cyan },
            Fill { rect: rect(99, 88, 101, 96), color: cyan },
            Fill { rect: rect(99, 104, 101, 112), color: cyan },
        ]
    );
}

#[test]
fn disabled_overlay_paints_only_background() {
    let mut s = Settings::default();
    s.enabled = false;
    assert_eq!(paint_plan(client(), &s), vec![Fill { rect: client(), color: BACKGROUND_COLOR }]);
}

#[test]
fn outline_and_dot() {
    let mut s = Settings::default();
    s.draw_left = false;
    s.draw_right = false;
    s.draw_top = false;
    s.draw_bottom = false;
    s.dot_enabled = true;
    s.dot_size = 3;
    s.outline_enabled = true;
    s.color = "#ff0000".to_string();
    let fills = paint_plan(client(), &s);
    assert_eq!(
        fills,
        vec![
            Fill { rect: client(), color: BACKGROUND_COLOR },
            Fill { rect: rect(98, 98, 103, 103), color: NEAR_BLACK },
            Fill { rect: rect(99, 99, 102, 102), color: 0xFF },
        ]
    );
}

#[test]
fn zero_sized_dot_is_not_drawn() {
    let mut s = Settings::default();
    s.draw_left = false;
    s.draw_right = false;
    s.draw_top = false;
    s.draw_bottom = false;
    s.dot_enabled = true;
    s.dot_size = 0;
    assert_eq!(paint_plan(client(), &s).len(), 1);
}

#[test]
fn odd_widths_round_towards_zero() {
    let mut s = Settings::default();
    s.line_width = 3;
    s.line_length = 5;
    s.gap = 0;
    let fills = paint_plan(rect(0, 0, 201, 199), &s);
    // cx = 100, cy = 99, bar from 99 to 102 across, 98 to 101 down
    assert_eq!(fills[1].rect, rect(99 - 0 - 5 + 1, 98, 99 - 0 + 1, 101));
    assert_eq!(fills[2].rect, rect(102 - 1, 98, 102 - 1 + 5, 101));
}

#[test]
fn extreme_settings_do_not_wrap() {
    let mut s = Settings::default();
    s.gap = i32::MAX;
    s.line_length = i32::MAX;
    let fills = paint_plan(client(), &s);
    assert_eq!(fills[1].rect.left, 99 - (i32::MAX as i64) - (i32::MAX as i64) + 1);
    assert!(fills.iter().skip(1).all(|f| f.color != 0));
}

#[test]
fn window_is_centred_then_offset() {
    assert_eq!(overlay_origin(rect(0, 0, 1920, 1080), 0, 0), (860, 440));
    assert_eq!(overlay_origin(rect(0, 0, 1920, 1080), 5, -7), (865, 433));
    assert_eq!(overlay_origin(rect(1920, 0, 3840, 1080), 0, 0), (2780, 440));
    assert_eq!(overlay_origin(rect(0, 0, 100, 101), 0, 0), (-50, -49));
}

#[test]
fn creation_registers_hotkey_and_tray_icon() {
    let mut s = Settings::default();
    let actions = handle_window_event(&mut s, WindowEvent::Create);
    assert_eq!(
        actions,
        vec![
            WindowAction::UnregisterHotkey,
            WindowAction::RegisterHotkey { modifiers: 3, key: 0x43 },
            WindowAction::AddTrayIcon,
        ]
    );
}

#[test]
fn hotkey_toggles_and_shows() {
    let mut s = Settings::default();
    let a = handle_window_event(&mut s, WindowEvent::Hotkey);
    assert!(!s.enabled);
    assert_eq!(a, vec![WindowAction::SaveSettings, WindowAction::Show(false), WindowAction::Invalidate]);
    let a = handle_window_event(&mut s, WindowEvent::Hotkey);
    assert!(s.enabled);
    assert_eq!(a, vec![WindowAction::SaveSettings, WindowAction::Show(true), WindowAction::Invalidate]);
}

#[test]
fn paint_event_fills() {
    let mut s = Settings::default();
    let a = handle_window_event(&mut s, WindowEvent::Paint { client: client() });
    assert_eq!(a.len(), 5);
    assert_eq!(a[0], WindowAction::Fill(Fill { rect: client(), color: 0 }));
}

#[test]
fn tray_clicks() {
    let mut s = Settings::default();
    s.autostart = true;
    assert_eq!(
        handle_window_event(&mut s, WindowEvent::TrayRightClick),
        vec![WindowAction::ShowTrayMenu { overlay_checked: true, autostart_checked: true }]
    );
    assert_eq!(handle_window_event(&mut s, WindowEvent::TrayLeftClick), vec![WindowAction::OpenSettingsPage]);
    assert_eq!(handle_window_event(&mut s, WindowEvent::TrayOther), vec![]);
}

#[test]
fn menu_commands() {
    let mut s = Settings::default();
    assert_eq!(handle_window_event(&mut s, WindowEvent::MenuCommand(MENU_OPEN_SETTINGS)), vec![WindowAction::OpenSettingsPage]);
    assert_eq!(
        handle_window_event(&mut s, WindowEvent::MenuCommand(MENU_TOGGLE_OVERLAY)),
        vec![WindowAction::SaveSettings, WindowAction::Show(false), WindowAction::Invalidate]
    );
    assert!(!s.enabled);
    assert_eq!(
        handle_window_event(&mut s, WindowEvent::MenuCommand(MENU_TOGGLE_AUTOSTART)),
        vec![WindowAction::SaveSettings, WindowAction::SetAutostart(true)]
    );
    assert!(s.autostart);
    assert_eq!(handle_window_event(&mut s, WindowEvent::MenuCommand(MENU_EXIT)), vec![WindowAction::DestroyWindow]);
    assert_eq!(handle_window_event(&mut s, WindowEvent::MenuCommand(0)), vec![]);
}

#[test]
fn settings_update_rebinds_and_moves() {
    let mut s = Settings::default();
    s.hotkey_key = "f5".to_string();
    s.hotkey_shift = true;
    s.offset_x = 10;
    let a = handle_window_event(&mut s, WindowEvent::SettingsUpdated { monitor: rect(0, 0, 1920, 1080) });
    assert_eq!(
        a,
        vec![
            WindowAction::UnregisterHotkey,
            WindowAction::RegisterHotkey { modifiers: 7, key: 0x74 },
            WindowAction::MoveWindow { x: 870, y: 440 },
            WindowAction::Show(true),
            WindowAction::Invalidate,
        ]
    );
}

#[test]
fn visibility_exit_destroy_and_others() {
    let mut s = Settings::default();
    s.enabled = false;
    assert_eq!(handle_window_event(&mut s, WindowEvent::VisibilityToggled), vec![WindowAction::Show(false), WindowAction::Invalidate]);
    assert_eq!(handle_window_event(&mut s, WindowEvent::ExitRequested), vec![WindowAction::DestroyWindow]);
    assert_eq!(handle_window_event(&mut s, WindowEvent::Destroy), vec![WindowAction::RemoveTrayIcon, WindowAction::PostQuit]);
    assert_eq!(handle_window_event(&mut s, WindowEvent::Other), vec![WindowAction::DefaultHandling]);
}

#[test]
fn registry_statuses() {
    assert_eq!(registry_outcome(RegistryStep::OpenKey, 0), Ok(()));
    assert_eq!(registry_outcome(RegistryStep::OpenKey, 5), Err(AutostartError { step: RegistryStep::OpenKey, code: 5 }));
    assert_eq!(registry_outcome(RegistryStep::SetValue, 2), Err(AutostartError { step: RegistryStep::SetValue, code: 2 }));
    assert_eq!(registry_outcome(RegistryStep::DeleteValue, 2), Ok(()));
    assert_eq!(registry_outcome(RegistryStep::DeleteValue, 5), Err(AutostartError { step: RegistryStep::DeleteValue, code: 5 }));
}

#[test]
fn registry_failures_name_the_call_and_code() {
    let e = AutostartError { step: RegistryStep::OpenKey, code: 5 };
    assert_eq!(error_message(e), b"RegOpenKeyExW failed with error 5".to_vec());
    let e = AutostartError { step: RegistryStep::SetValue, code: 1314 };
    assert_eq!(error_message(e), b"RegSetValueExW failed with error 1314".to_vec());
    let e = AutostartError { step: RegistryStep::DeleteValue, code: 0 };
    assert_eq!(error_message(e), b"RegDeleteValueW failed with error 0".to_vec());
    let e = AutostartError { step: RegistryStep::DeleteValue, code: u32::MAX };
    assert_eq!(error_message(e), b"RegDeleteValueW failed with error 4294967295".to_vec());
}

#[test]
fn turning_autostart_off_twice_succeeds() {
    assert_eq!(registry_outcome(RegistryStep::DeleteValue, 0), Ok(()));
    assert_eq!(registry_outcome(RegistryStep::DeleteValue, 2), Ok(()));
}
