use genshin_auto::input::{
    advance_messages, down_payload, up_payload, VK_ADVANCE_KEY, VK_PRIMARY_BUTTON, WM_KEYDOWN,
    WM_KEYUP, WM_LBUTTONDOWN, WM_LBUTTONUP,
};
use genshin_auto::target::InputMode;

#[test]
fn payloads_encode_repeat_count_scan_code_and_flags() {
    assert_eq!(down_payload(0x21), 0x0021_0001);
    assert_eq!(up_payload(0x21), 0xC021_0001);
    assert_eq!(down_payload(0), 0x0000_0001);
    assert_eq!(up_payload(0), 0xC000_0001);
    assert_eq!(down_payload(0xFF), 0x00FF_0001);
    assert_eq!(up_payload(0xFF), 0xC0FF_0001);
}

#[test]
fn keyboard_mode_posts_advance_key_messages() {
    let m = advance_messages(InputMode::Keyboard, 0x21);
    assert_eq!(m.down_msg, WM_KEYDOWN);
    assert_eq!(m.up_msg, WM_KEYUP);
    assert_eq!(m.key, VK_ADVANCE_KEY);
    assert_eq!(m.down_payload, 0x0021_0001);
    assert_eq!(m.up_payload, 0xC021_0001);
}

#[test]
fn mouse_mode_posts_primary_button_messages() {
    let m = advance_messages(InputMode::Mouse, 0);
    assert_eq!(m.down_msg, WM_LBUTTONDOWN);
    assert_eq!(m.up_msg, WM_LBUTTONUP);
    assert_eq!(m.key, VK_PRIMARY_BUTTON);
    assert_eq!(m.down_payload, 0x0000_0001);
    assert_eq!(m.up_payload, 0xC000_0001);
}
