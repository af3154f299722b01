//! The decision logic of a Team Fortress 2 client assistant, verified with
//! Verus: target selection and walking over entity indices, projectile
//! classification, trigger decisions, the per-tick user command rewrite and
//! its checksum, byte-pattern search in machine code, virtual method table
//! copies, and the UTF-16 text buffer of the on-screen text.

pub mod aimbot;
pub mod airblast;
pub mod gui;
pub mod hooks;
pub mod interfaces;
pub mod offsets;
pub mod predict;
pub mod sdk;
pub mod triggerbot;
pub mod utils;
pub mod vmthook;
