use vstd::prelude::*;

verus! {

/// The number of entries of a virtual method table that are copied.
pub const VMT_MAX_SIZE: usize = 512;

/// A copy of a virtual method table whose entries can be replaced, beside
/// the untouched original. Entries are method addresses.
pub struct VMTHooker {
    original_vmt: Vec<usize>,
    patched_vmt: Vec<usize>,
}

impl VMTHooker {
    /// The table as it was when the hooker was made.
    pub closed spec fn original(&self) -> Seq<usize> {
        self.original_vmt@
    }

    /// The table with the hooks applied.
    pub closed spec fn patched(&self) -> Seq<usize> {
        self.patched_vmt@
    }

    /// What `get_orig_method` reports for `offset`: the original entry, or 0
    /// past the end of the table.
    pub open spec fn orig_method(&self, offset: int) -> usize {
        if 0 <= offset < self.original().len() {
            self.original()[offset]
        } else {
            0
        }
    }

    /// Starts from the entries of a table: the patched copy equals the
    /// original.
    pub fn new(vmt: &[usize]) -> (h: VMTHooker)
        requires
            vmt@.len() == VMT_MAX_SIZE,
        ensures
            h.original() == vmt@,
            h.patched() == vmt@,
            h.original().len() == VMT_MAX_SIZE,
            h.patched().len() == VMT_MAX_SIZE,
    {
        let mut original_vmt: Vec<usize> = Vec::new();
        let mut i: usize = 0;
        while i < vmt.len()
            invariant
                i <= vmt@.len(),
                original_vmt@ == vmt@.take(i as int),
            decreases vmt@.len() - i,
        {
            original_vmt.push(vmt[i]);
            i = i + 1;
            assert(original_vmt@ =~= vmt@.take(i as int));
        }
        assert(vmt@.take(vmt@.len() as int) =~= vmt@);
        let patched_vmt = original_vmt.clone();
        VMTHooker { original_vmt, patched_vmt }
    }

    /// Replaces entry `offset` of the patched table with `hook`.
    pub fn hook(&mut self, offset: usize, hook: usize)
        requires
            offset < old(self).patched().len(),
        ensures
            final(self).patched() == old(self).patched().update(offset as int, hook),
            final(self).original() == old(self).original(),
    {
        self.patched_vmt.set(offset, hook);
    }

    /// Entry `offset` of the original table, or 0 (a null address) past its
    /// end.
    pub fn get_orig_method(&self, offset: usize) -> (r: usize)
        ensures
            r == self.orig_method(offset as int),
    {
        if offset < self.original_vmt.len() {
            self.original_vmt[offset]
        } else {
            0
        }
    }

    /// The patched table, to be installed in place of the original.
    pub fn patched_table(&self) -> (t: &[usize])
        ensures
            t@ == self.patched(),
    {
        self.patched_vmt.as_slice()
    }
}

/// Law: hooking entry `offset` (as `hook` does, from `before` to `after`)
/// changes that entry of the patched table and no other, and changes nothing
/// that `get_orig_method` reports.
pub proof fn lemma_hook_changes_one_entry(
    before: VMTHooker,
    after: VMTHooker,
    offset: int,
    hook: usize,
)
    requires
        0 <= offset < before.patched().len(),
        after.patched() == before.patched().update(offset, hook),
        after.original() == before.original(),
    ensures
        after.patched()[offset] == hook,
        after.patched().len() == before.patched().len(),
        forall|o: int|
            0 <= o < before.patched().len() && o != offset ==> after.patched()[o]
                == before.patched()[o],
        forall|o: int| after.orig_method(o) == before.orig_method(o),
{
}

/// The value that the last of `hooks` (pairs of entry and address) aimed at
/// entry `j` put there, if any hook aimed at it.
pub open spec fn last_hook(hooks: Seq<(usize, usize)>, j: int) -> Option<usize>
    decreases hooks.len(),
{
    if hooks.len() == 0 {
        None
    } else if hooks.last().0 == j {
        Some(hooks.last().1)
    } else {
        last_hook(hooks.drop_last(), j)
    }
}

/// Law: after any sequence of hooks applied to a hooker made from the table
/// `states[0].original()` (each step related as `hook` relates its states),
/// `get_orig_method` still reports the original table (its entry below
/// `VMT_MAX_SIZE`, 0 past it), and each entry of the patched table holds the
/// address of the last hook aimed at it, or the original entry where none
/// was.
pub proof fn lemma_hook_sequence(states: Seq<VMTHooker>, hooks: Seq<(usize, usize)>)
    requires
        states.len() == hooks.len() + 1,
        states[0].original().len() == VMT_MAX_SIZE,
        states[0].patched() == states[0].original(),
        forall|k: int|
            0 <= k < hooks.len() ==> {
                &&& (#[trigger] hooks[k]).0 < states[k].patched().len()
                &&& states[k + 1].patched() == states[k].patched().update(
                    hooks[k].0 as int,
                    hooks[k].1,
                )
                &&& states[k + 1].original() == states[k].original()
            },
    ensures
        states.last().original() == states[0].original(),
        forall|i: int|
            #![trigger states.last().orig_method(i)]
            0 <= i < VMT_MAX_SIZE ==> states.last().orig_method(i) == states[0].original()[i],
        forall|i: int|
            #![trigger states.last().orig_method(i)]
            !(0 <= i < VMT_MAX_SIZE) ==> states.last().orig_method(i) == 0,
        states.last().patched().len() == VMT_MAX_SIZE,
        forall|j: int|
            0 <= j < VMT_MAX_SIZE ==> states.last().patched()[j] == match #[trigger] last_hook(
                hooks,
                j,
            ) {
                Some(f) => f,
                None => states[0].original()[j],
            },
    decreases hooks.len(),
{
    if hooks.len() > 0 {
        let n = hooks.len() - 1;
        let prev_states = states.drop_last();
        let prev_hooks = hooks.drop_last();
        assert forall|k: int| 0 <= k < prev_hooks.len() implies {
            &&& (#[trigger] prev_hooks[k]).0 < prev_states[k].patched().len()
            &&& prev_states[k + 1].patched() == prev_states[k].patched().update(
                prev_hooks[k].0 as int,
                prev_hooks[k].1,
            )
            &&& prev_states[k + 1].original() == prev_states[k].original()
        } by {
            assert(prev_hooks[k] == hooks[k]);
            assert(prev_states[k] == states[k]);
            assert(prev_states[k + 1] == states[k + 1]);
        }
        lemma_hook_sequence(prev_states, prev_hooks);
        assert(prev_states.last() == states[n]);
        assert(hooks[n] == hooks.last());
        assert forall|j: int| 0 <= j < VMT_MAX_SIZE implies states.last().patched()[j]
            == match #[trigger] last_hook(hooks, j) {
            Some(f) => f,
            None => states[0].original()[j],
        } by {
            assert(prev_states.last().patched()[j] == match last_hook(prev_hooks, j) {
                Some(f) => f,
                None => states[0].original()[j],
            });
        }
    }
}

} // verus!
