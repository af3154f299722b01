use vstd::prelude::*;

verus! {

/// The engine client interface, which the game only hands out by address;
/// the library never reads one.
pub enum EngineClient {
    Opaque,
}

/// The client DLL interface, which the game only hands out by address;
/// the library never reads one.
pub enum CHLClient {
    Opaque,
}

/// The engine's ray tracing interface, which the game only hands out by address;
/// the library never reads one.
pub enum CEngineTrace {
    Opaque,
}

/// The client entity list, which the game only hands out by address;
/// the library never reads one.
pub enum CEntList {
    Opaque,
}

/// A trace filter, which the game only hands out by address;
/// the library never reads one.
pub enum ITraceFilter {
    Opaque,
}

/// A client entity, which the game only hands out by address;
/// the library never reads one.
pub enum CBaseEntity {
    Opaque,
}

/// The debug overlay interface, which the game only hands out by address;
/// the library never reads one.
pub enum DebugOverlay {
    Opaque,
}

/// The input system, which the game only hands out by address;
/// the library never reads one.
pub enum CInput {
    Opaque,
}

/// A view angle whose three components are kept as the IEEE-754 bit patterns
/// of the `f32` values the game uses.
#[derive(Clone, Copy)]
pub struct QAngleBits {
    pub pitch: u32,
    pub yaw: u32,
    pub roll: u32,
}

/// One user command as the game stores it. The movement and angle
/// components, which are `f32` in the game, are kept as their IEEE-754 bit
/// patterns; the address of the virtual table is kept as an integer.
#[derive(Clone, Copy)]
pub struct CUserCmd {
    pub vtable_ptr: usize,
    pub command_number: i32,
    pub tick_count: i32,
    pub viewangles: QAngleBits,
    pub forwardmove: u32,
    pub sidemove: u32,
    pub upmove: u32,
    pub buttons: i32,
    pub impulse: u8,
    pub weaponselect: i32,
    pub weaponsubtype: i32,
    pub random_seed: i32,
    pub mousedx: u16,
    pub mousedy: u16,
    pub hasbeenpredicted: bool,
}

/// A user command together with the checksum the server checks it against.
pub struct CVerifiedUserCmd {
    pub m_cmd: CUserCmd,
    pub m_crc: u32,
}

} // verus!
