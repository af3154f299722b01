use vstd::prelude::*;
use crate::sdk::CUserCmd;

verus! {

/// The buttons that are released in the command replayed for prediction:
/// primary attack (bit 0) and secondary attack (bit 11).
pub const PREDICTION_RELEASED_BUTTONS: i32 = 0x801;

/// The command the local prediction replays, if there is a move helper to
/// run it with (`movehelper_present`): the same command with both attack
/// buttons released, so that prediction never fires. Without a move helper
/// nothing is predicted.
pub fn predict_local_command(movehelper_present: bool, cmd: &CUserCmd) -> (tmp: Option<CUserCmd>)
    ensures
        !movehelper_present ==> tmp is None,
        movehelper_present ==> tmp == Some(
            CUserCmd { buttons: cmd.buttons & !PREDICTION_RELEASED_BUTTONS, ..*cmd },
        ),
        tmp matches Some(t) ==> t.buttons & 1 == 0 && t.buttons & 0x800 == 0 && t.buttons
            & !0x801i32 == cmd.buttons & !0x801i32,
{
    if !movehelper_present {
        return None;
    }
    let mut tmp = *cmd;
    tmp.buttons = tmp.buttons & !(1i32 << 0u32 | 1i32 << 11u32);
    let b: i32 = cmd.buttons;
    assert(b & !(1i32 << 0u32 | 1i32 << 11u32) == b & !0x801i32) by (bit_vector);
    assert((b & !0x801i32) & 1 == 0 && (b & !0x801i32) & 0x800 == 0 && (b & !0x801i32)
        & !0x801i32 == b & !0x801i32) by (bit_vector);
    Some(tmp)
}

} // verus!
