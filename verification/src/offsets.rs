use vstd::prelude::*;

verus! {

/// Byte offsets of the networked fields that the library reads from an entity.
#[allow(non_snake_case)]
pub struct Offsets {
    pub m_vecViewOffset: usize,
    pub m_iTeamNum: usize,
    pub m_lifeState: usize,
}

impl Offsets {
    /// Fills in the offsets of the current game build.
    pub fn load(&mut self)
        ensures
            final(self).m_vecViewOffset == 0xFC,
            final(self).m_iTeamNum == 0x0B0,
            final(self).m_lifeState == 0x0A5,
    {
        *self = Offsets { m_vecViewOffset: 0xFC, m_iTeamNum: 0x0B0, m_lifeState: 0x0A5 };
    }
}

/// The address `offset` bytes past the address `x`.
pub fn ptr_offset(x: usize, offset: usize) -> (r: usize)
    requires
        x + offset <= usize::MAX,
    ensures
        r == x + offset,
{
    x + offset
}

} // verus!
