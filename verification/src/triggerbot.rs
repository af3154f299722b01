use vstd::prelude::*;

verus! {

/// What the trace along the view direction hit: the entity's index and team.
#[derive(Clone, Copy)]
pub struct TraceHit {
    pub index: i32,
    pub team: i32,
}

/// Whether to fire: the trace hit an entity that is a player (index 1 to 32)
/// and on another team than `my_team`.
pub fn should_trigger(hit: Option<TraceHit>, my_team: i32) -> (r: bool)
    ensures
        r == match hit {
            None => false,
            Some(h) => 1 <= h.index <= 32 && h.team != my_team,
        },
{
    match hit {
        None => false,
        Some(h) => {
            if h.index < 1 || h.index > 32 {
                return false;
            }
            let friendly = h.team == my_team;
            !friendly
        },
    }
}

} // verus!
