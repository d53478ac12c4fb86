use clipflow::keystroke::{is_modifier, modifier_prefix, vk_to_name, scan_step, VK_LBUTTON, VK_RBUTTON, VK_MBUTTON, VK_SHIFT, VK_CTRL, VK_ALT, VK_LWIN};

#[test]
fn test_vk_letters() {
    assert_eq!(vk_to_name(0x41), "A");
    assert_eq!(vk_to_name(0x5A), "Z");
}

#[test]
fn test_vk_digits() {
    assert_eq!(vk_to_name(0x30), "0");
    assert_eq!(vk_to_name(0x39), "9");
}

#[test]
fn test_vk_function_keys() {
    assert_eq!(vk_to_name(0x70), "F1");
    assert_eq!(vk_to_name(0x7B), "F12");
    assert_eq!(vk_to_name(0x87), "F24");
}

#[test]
fn test_vk_arrows() {
    assert_eq!(vk_to_name(0x25), "\u{2190}");
    assert_eq!(vk_to_name(0x26), "\u{2191}");
    assert_eq!(vk_to_name(0x27), "\u{2192}");
    assert_eq!(vk_to_name(0x28), "\u{2193}");
}

#[test]
fn test_vk_mouse() {
    assert_eq!(vk_to_name(VK_LBUTTON), "Clic");
    assert_eq!(vk_to_name(VK_RBUTTON), "Clic Droit");
    assert_eq!(vk_to_name(VK_MBUTTON), "Clic Milieu");
}

#[test]
fn test_vk_special_keys() {
    assert_eq!(vk_to_name(0x0D), "Enter");
    assert_eq!(vk_to_name(0x20), "Space");
    assert_eq!(vk_to_name(0x08), "Backspace");
    assert_eq!(vk_to_name(0x09), "Tab");
    assert_eq!(vk_to_name(0x1B), "Esc");
}

#[test]
fn test_vk_numpad() {
    assert_eq!(vk_to_name(0x60), "Num0");
    assert_eq!(vk_to_name(0x69), "Num9");
    assert_eq!(vk_to_name(0x6A), "*");
    assert_eq!(vk_to_name(0x6B), "+");
}

#[test]
fn test_vk_unknown() {
    assert_eq!(vk_to_name(0xFF), "");
}

#[test]
fn test_is_modifier_true() {
    assert!(is_modifier(VK_SHIFT));
    assert!(is_modifier(VK_CTRL));
    assert!(is_modifier(VK_ALT));
    assert!(is_modifier(VK_LWIN));
    assert!(is_modifier(0xA0));
    assert!(is_modifier(0xA3));
}

#[test]
fn test_is_modifier_false() {
    assert!(!is_modifier(0x41));
    assert!(!is_modifier(0x0D));
    assert!(!is_modifier(0x70));
    assert!(!is_modifier(VK_LBUTTON));
}

#[test]
fn test_prefix_none() {
    assert_eq!(modifier_prefix(false, false, false, false), "");
}

#[test]
fn test_prefix_ctrl() {
    assert_eq!(modifier_prefix(true, false, false, false), "Ctrl+");
}

#[test]
fn test_prefix_ctrl_shift() {
    assert_eq!(modifier_prefix(true, true, false, false), "Ctrl+Shift+");
}

#[test]
fn test_prefix_all() {
    assert_eq!(modifier_prefix(true, true, true, true), "Ctrl+Shift+Alt+Win+");
}

#[test]
fn test_scan_step_press_edge_with_modifiers() {
    // Ctrl and Shift held, 'A' freshly pressed: one combo, fixed prefix order.
    let mut prev = vec![false; 256];
    let mut now = vec![false; 256];
    now[VK_CTRL as usize] = true;
    now[VK_SHIFT as usize] = true;
    now[0x41] = true;
    prev[VK_CTRL as usize] = true;
    prev[VK_SHIFT as usize] = true;
    let events = scan_step(&prev, &now, 1234);
    assert_eq!(events.len(), 1);
    assert_eq!(events[0].timestamp_ms, 1234);
    assert_eq!(events[0].key_name, "Ctrl+Shift+A");
}

#[test]
fn test_scan_step_held_key_not_repeated() {
    // A key already down before produces no new event.
    let mut prev = vec![false; 256];
    let mut now = vec![false; 256];
    prev[0x41] = true;
    now[0x41] = true;
    let events = scan_step(&prev, &now, 10);
    assert!(events.is_empty());
}

#[test]
fn test_scan_step_modifier_only_skipped() {
    // A fresh modifier press alone yields nothing.
    let mut now = vec![false; 256];
    now[VK_CTRL as usize] = true;
    let events = scan_step(&vec![false; 256], &now, 10);
    assert!(events.is_empty());
}
