//! The synthetic-input messages that advance a detected dialog: for each
//! input mode, a down message and an up message with their exactly encoded
//! payloads. Posting them to the window is operating-system work and stays
//! outside the library.

use vstd::prelude::*;
use crate::target::InputMode;

verus! {

/// Key-down window message identifier.
pub const WM_KEYDOWN: u32 = 0x0100;

/// Key-up window message identifier.
pub const WM_KEYUP: u32 = 0x0101;

/// Primary-button-down window message identifier.
pub const WM_LBUTTONDOWN: u32 = 0x0201;

/// Primary-button-up window message identifier.
pub const WM_LBUTTONUP: u32 = 0x0202;

/// Virtual-key code of the fixed "advance" key.
pub const VK_ADVANCE_KEY: u32 = 0x46;

/// Virtual-key code of the primary mouse button.
pub const VK_PRIMARY_BUTTON: u32 = 0x01;

/// Key-up payload flags: previous-key-state and transition-state bits in
/// the top byte.
pub const KEYUP_FLAGS: u32 = 0xC0000000;

/// The two messages that advance one dialog element.
#[derive(Clone, Copy, PartialEq, Eq, Structural, Debug)]
pub struct AdvanceMessages {
    pub down_msg: u32,
    pub up_msg: u32,
    pub key: u32,
    pub down_payload: u32,
    pub up_payload: u32,
}

/// The down payload: repeat count 1 in the low word, the scan code in the
/// third byte.
pub fn down_payload(scan: u32) -> (r: u32)
    requires
        scan <= 0xFF,
    ensures
        r == 1 + scan * 0x10000,
{
    let r = 1u32 | (scan << 16u32);
    proof {
        assert(r == 1 + scan * 0x10000) by (bit_vector)
            requires
                scan <= 0xFF,
                r == 1u32 | (scan << 16u32),
        ;
    }
    r
}

/// The up payload: the down payload with the previous-key-state and
/// transition-state flags set.
pub fn up_payload(scan: u32) -> (r: u32)
    requires
        scan <= 0xFF,
    ensures
        r == 1 + scan * 0x10000 + KEYUP_FLAGS,
{
    let r = 1u32 | (scan << 16u32) | (0xC0u32 << 24u32);
    proof {
        assert(r == 1 + scan * 0x10000 + 0xC0000000u32) by (bit_vector)
            requires
                scan <= 0xFF,
                r == 1u32 | (scan << 16u32) | (0xC0u32 << 24u32),
        ;
    }
    r
}

/// The messages that dismiss the detected dialog element: a down then an up
/// event for the advance key or the primary mouse button, with the scan
/// code the operating system reported for that key.
pub fn advance_messages(mode: InputMode, scan: u32) -> (r: AdvanceMessages)
    requires
        scan <= 0xFF,
    ensures
        mode is Keyboard ==> r.down_msg == WM_KEYDOWN && r.up_msg == WM_KEYUP && r.key
            == VK_ADVANCE_KEY,
        mode is Mouse ==> r.down_msg == WM_LBUTTONDOWN && r.up_msg == WM_LBUTTONUP && r.key
            == VK_PRIMARY_BUTTON,
        r.down_payload == 1 + scan * 0x10000,
        r.up_payload == 1 + scan * 0x10000 + KEYUP_FLAGS,
{
    let down = down_payload(scan);
    let up = up_payload(scan);
    match mode {
        InputMode::Keyboard => AdvanceMessages {
            down_msg: WM_KEYDOWN,
            up_msg: WM_KEYUP,
            key: VK_ADVANCE_KEY,
            down_payload: down,
            up_payload: up,
        },
        InputMode::Mouse => AdvanceMessages {
            down_msg: WM_LBUTTONDOWN,
            up_msg: WM_LBUTTONUP,
            key: VK_PRIMARY_BUTTON,
            down_payload: down,
            up_payload: up,
        },
    }
}

} // verus!
