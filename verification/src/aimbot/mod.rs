use vstd::prelude::*;

pub mod target;

use self::target::Targets;

verus! {

/// The candidate entities of the aimbot, from index 0 up to (not including)
/// the highest entity index the entity list reports.
pub fn targets(highest_entnum: i32) -> (t: Targets)
    ensures
        t.current() == 0,
        t.highest() == highest_entnum,
{
    Targets::new(highest_entnum)
}

} // verus!
