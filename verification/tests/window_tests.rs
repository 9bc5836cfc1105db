use seltalk::db::WindowState;
use seltalk::tray::{menu_action, pause_labels, toggled_pause, MenuAction, MENU_PAUSE_RESUME, MENU_QUIT, MENU_SHOW};
use seltalk::window::{
    calc_cursor_position, correct_state_boundary, default_window_state, effective_on_top,
    next_pin_mode, pin_flags, pin_mode, CursorPositionInput, PinMode, FLOAT_LABEL,
};

fn make_input(mx: i32, my: i32) -> CursorPositionInput {
    CursorPositionInput {
        mouse_x: mx,
        mouse_y: my,
        mon_x: 0,
        mon_y: 0,
        mon_w: 1920,
        mon_h: 1080,
        float_w: 420,
        float_h: 360,
        offset: 16,
    }
}

#[test]
fn test_float_label_constant() {
    assert_eq!(FLOAT_LABEL, "float");
}

#[test]
fn test_calc_center_position() {
    let (x, y) = calc_cursor_position(make_input(960, 540));
    assert_eq!(x, 976);
    assert_eq!(y, 556);
}

#[test]
fn test_calc_right_bottom_corner() {
    let (x, y) = calc_cursor_position(make_input(1900, 1060));
    assert_eq!(x, 1900 - 16 - 420);
    assert_eq!(y, 1060 - 16 - 360);
}

#[test]
fn test_calc_right_edge_only() {
    let (x, y) = calc_cursor_position(make_input(1900, 540));
    assert_eq!(x, 1900 - 16 - 420);
    assert_eq!(y, 540 + 16);
}

#[test]
fn test_calc_top_left_corner() {
    let (x, y) = calc_cursor_position(make_input(0, 0));
    assert_eq!(x, 16);
    assert_eq!(y, 16);
}

#[test]
fn test_calc_second_monitor() {
    let input = CursorPositionInput {
        mouse_x: 3820,
        mouse_y: 1060,
        mon_x: 1920,
        mon_y: 0,
        mon_w: 1920,
        mon_h: 1080,
        float_w: 420,
        float_h: 360,
        offset: 16,
    };
    let (x, y) = calc_cursor_position(input);
    assert_eq!(x, 3820 - 16 - 420);
    assert_eq!(y, 1060 - 16 - 360);
}

#[test]
fn test_calc_negative_monitor_origin() {
    let input = CursorPositionInput {
        mouse_x: -960,
        mouse_y: 540,
        mon_x: -1920,
        mon_y: 0,
        mon_w: 1920,
        mon_h: 1080,
        float_w: 420,
        float_h: 360,
        offset: 16,
    };
    let (x, y) = calc_cursor_position(input);
    assert_eq!(x, -960 + 16);
    assert_eq!(y, 540 + 16);
}

#[test]
fn test_calc_window_larger_than_screen() {
    let input = CursorPositionInput {
        mouse_x: 100,
        mouse_y: 100,
        mon_x: 0,
        mon_y: 0,
        mon_w: 800,
        mon_h: 600,
        float_w: 1000,
        float_h: 700,
        offset: 16,
    };
    let (x, y) = calc_cursor_position(input);
    assert_eq!(x, 0);
    assert_eq!(y, 0);
}

#[test]
fn test_calc_zero_offset() {
    let mut input = make_input(100, 100);
    input.offset = 0;
    let (x, y) = calc_cursor_position(input);
    assert_eq!(x, 100);
    assert_eq!(y, 100);
}

#[test]
fn test_calc_just_at_right_boundary() {
    let (x, y) = calc_cursor_position(make_input(1484, 540));
    assert_eq!(x, 1484 + 16);
    assert_eq!(y, 540 + 16);
}

#[test]
fn test_calc_one_pixel_over_right_boundary() {
    let (x, _y) = calc_cursor_position(make_input(1485, 540));
    assert_eq!(x, 1485 - 16 - 420);
}

#[test]
fn test_pin_mode_off() {
    assert_eq!(pin_mode(false, false), PinMode::Off);
}

#[test]
fn test_pin_mode_normal() {
    assert_eq!(pin_mode(true, false), PinMode::Normal);
}

#[test]
fn test_pin_mode_temp_overrides_normal() {
    assert_eq!(pin_mode(true, true), PinMode::Temp);
    assert_eq!(pin_mode(false, true), PinMode::Temp);
}

#[test]
fn test_next_pin_mode_cycle() {
    assert_eq!(next_pin_mode(PinMode::Off), PinMode::Normal);
    assert_eq!(next_pin_mode(PinMode::Normal), PinMode::Temp);
    assert_eq!(next_pin_mode(PinMode::Temp), PinMode::Off);
}

#[test]
fn test_pin_cycle_returns_to_start() {
    let start = PinMode::Off;
    let after_one = next_pin_mode(start);
    let after_two = next_pin_mode(after_one);
    let after_three = next_pin_mode(after_two);
    assert_eq!(after_one, PinMode::Normal);
    assert_eq!(after_two, PinMode::Temp);
    assert_eq!(after_three, PinMode::Off);
    assert_eq!(after_three, start);
}

#[test]
fn pin_flags_read_back_as_their_mode() {
    for m in [PinMode::Off, PinMode::Normal, PinMode::Temp] {
        let (normal, temp) = pin_flags(m);
        assert_eq!(pin_mode(normal, temp), m);
    }
    assert!(effective_on_top(false, true));
    assert!(!effective_on_top(false, false));
}

#[test]
fn boundary_correction_moves_window_back() {
    let mut s = WindowState { x: 5000, y: -50, w: 420, h: 360, always_on_top: true };
    correct_state_boundary(&mut s, 0, 0, 1920, 1080);
    assert_eq!((s.x, s.y), (1500, 0));
    let mut big = WindowState { x: 300, y: 300, w: 3000, h: 200, always_on_top: false };
    correct_state_boundary(&mut big, 100, 0, 1920, 1080);
    assert_eq!((big.x, big.y), (100, 300));
    assert_eq!(default_window_state(420, 360, true), WindowState { x: 100, y: 100, w: 420, h: 360, always_on_top: true });
}

#[test]
fn test_menu_ids_are_unique() {
    assert_ne!(MENU_SHOW, MENU_PAUSE_RESUME);
    assert_ne!(MENU_SHOW, MENU_QUIT);
    assert_ne!(MENU_PAUSE_RESUME, MENU_QUIT);
}

#[test]
fn menu_entries_map_to_actions() {
    assert_eq!(menu_action("quit"), Some(MenuAction::Quit));
    assert_eq!(menu_action("show_manager"), Some(MenuAction::ShowManager));
    assert_eq!(menu_action("pause_resume_hotkey"), Some(MenuAction::TogglePause));
    assert_eq!(menu_action("other"), None);
    assert_eq!(pause_labels(true).0, "恢复热键");
    assert_eq!(pause_labels(false).1, "择言 SelTalk");
    assert!(toggled_pause(false, false));
    assert!(!toggled_pause(true, true));
    assert!(toggled_pause(true, false));
}

#[test]
fn physical_rect_from_edges() {
    let r = seltalk::window::PhysicalRect::from_edges(-1920, 0, 0, 1040);
    assert_eq!((r.x, r.y, r.width, r.height), (-1920, 0, 1920, 1040));
}
