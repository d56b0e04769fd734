//! The hardware input forwarder's decisions: which key codes from the input
//! device become UI commands.  Reading the device happens outside the core;
//! the mapping is the forwarder's whole logic.

use vstd::prelude::*;

use crate::ui::CallScreenCommand;

verus! {

/// The commands the input forwarder itself receives.
#[derive(Clone, Copy, PartialEq, Eq, Structural, Debug)]
pub enum EventCommand {
    Exit,
}

/// Key code of the volume-up key on the event device.
pub const KEY_CODE_UP: u16 = 103;

/// Key code of the volume-down key on the event device.
pub const KEY_CODE_DOWN: u16 = 108;

/// Key code of the mute key on the event device.
pub const KEY_CODE_MUTE: u16 = 113;

/// Key code of the OK key on the event device.
pub const KEY_CODE_OK: u16 = 352;

/// Key code of the select key on the event device.
pub const KEY_CODE_SELECT: u16 = 353;

/// The UI command a key press maps to, if any.
pub open spec fn spec_map_key_code(code: u16) -> Option<CallScreenCommand> {
    if code == KEY_CODE_UP {
        Some(CallScreenCommand::IncreaseVolume)
    } else if code == KEY_CODE_DOWN {
        Some(CallScreenCommand::DecreaseVolume)
    } else if code == KEY_CODE_MUTE {
        Some(CallScreenCommand::ToggleMute)
    } else if code == KEY_CODE_SELECT {
        Some(CallScreenCommand::AcceptCall)
    } else if code == KEY_CODE_OK {
        Some(CallScreenCommand::StopCall)
    } else {
        None
    }
}

/// Map one key press from the input device to a UI command: volume up and
/// down, mute, select (accept) and OK (stop); every other key is dropped.
pub fn map_key_code(code: u16) -> (r: Option<CallScreenCommand>)
    ensures
        r == spec_map_key_code(code),
{
    if code == KEY_CODE_UP {
        Some(CallScreenCommand::IncreaseVolume)
    } else if code == KEY_CODE_DOWN {
        Some(CallScreenCommand::DecreaseVolume)
    } else if code == KEY_CODE_MUTE {
        Some(CallScreenCommand::ToggleMute)
    } else if code == KEY_CODE_SELECT {
        Some(CallScreenCommand::AcceptCall)
    } else if code == KEY_CODE_OK {
        Some(CallScreenCommand::StopCall)
    } else {
        None
    }
}

} // verus!
