use vstd::prelude::*;
use crate::aimbot::target::EntityInfo;
use crate::utils::bytes_equal;
use vstd::string::StringSliceAdditionalSpecFns;

verus! {

/// The client classes of the projectiles that the airblast reflects.
pub open spec fn spec_is_reflectable(class_name: Seq<u8>) -> bool {
    ||| class_name == "CTFProjectile_Rocket".spec_bytes()
    ||| class_name == "CTFProjectile_Flare".spec_bytes()
    ||| class_name == "CTFProjectile_EnergyBall".spec_bytes()
    ||| class_name == "CTFProjectile_HealingBolt".spec_bytes()
    ||| class_name == "CTFProjectile_Arrow".spec_bytes()
    ||| class_name == "CTFProjectile_SentryRocket".spec_bytes()
    ||| class_name == "CTFProjectile_Throwable".spec_bytes()
    ||| class_name == "CTFThrowable".spec_bytes()
    ||| class_name == "CTFProjectile_Cleaver".spec_bytes()
    ||| class_name == "CTFProjectile_JarMilk".spec_bytes()
    ||| class_name == "CTFProjectile_Jar".spec_bytes()
    ||| class_name == "CTFStunBall".spec_bytes()
    ||| class_name == "CTFGrenadePipebombProjectile".spec_bytes()
    ||| class_name == "CTFBall_Ornament".spec_bytes()
}

/// Whether an entity of this client class is a reflectable projectile.
pub fn is_reflectable(class_name: &[u8]) -> (r: bool)
    ensures
        r == spec_is_reflectable(class_name@),
{
    bytes_equal(class_name, "CTFProjectile_Rocket".as_bytes()) ||
        bytes_equal(class_name, "CTFProjectile_Flare".as_bytes()) ||
        bytes_equal(class_name, "CTFProjectile_EnergyBall".as_bytes()) ||
        bytes_equal(class_name, "CTFProjectile_HealingBolt".as_bytes()) ||
        bytes_equal(class_name, "CTFProjectile_Arrow".as_bytes()) ||
        bytes_equal(class_name, "CTFProjectile_SentryRocket".as_bytes()) ||
        bytes_equal(class_name, "CTFProjectile_Throwable".as_bytes()) ||
        bytes_equal(class_name, "CTFThrowable".as_bytes()) ||
        bytes_equal(class_name, "CTFProjectile_Cleaver".as_bytes()) ||
        bytes_equal(class_name, "CTFProjectile_JarMilk".as_bytes()) ||
        bytes_equal(class_name, "CTFProjectile_Jar".as_bytes()) ||
        bytes_equal(class_name, "CTFStunBall".as_bytes()) ||
        bytes_equal(class_name, "CTFGrenadePipebombProjectile".as_bytes()) ||
        bytes_equal(class_name, "CTFBall_Ornament".as_bytes())
}

/// Law: the airblast reflects exactly these fourteen projectile classes,
/// and no entity of any other class: a byte string is reflectable exactly
/// when it is one of the listed class names.
pub proof fn lemma_reflectable_classes(class_name: Seq<u8>)
    ensures
        spec_is_reflectable(class_name) <==> seq![
            "CTFProjectile_Rocket".spec_bytes(),
            "CTFProjectile_Flare".spec_bytes(),
            "CTFProjectile_EnergyBall".spec_bytes(),
            "CTFProjectile_HealingBolt".spec_bytes(),
            "CTFProjectile_Arrow".spec_bytes(),
            "CTFProjectile_SentryRocket".spec_bytes(),
            "CTFProjectile_Throwable".spec_bytes(),
            "CTFThrowable".spec_bytes(),
            "CTFProjectile_Cleaver".spec_bytes(),
            "CTFProjectile_JarMilk".spec_bytes(),
            "CTFProjectile_Jar".spec_bytes(),
            "CTFStunBall".spec_bytes(),
            "CTFGrenadePipebombProjectile".spec_bytes(),
            "CTFBall_Ornament".spec_bytes(),
        ].contains(class_name),
{
    let names: Seq<Seq<u8>> = seq![
            "CTFProjectile_Rocket".spec_bytes(),
            "CTFProjectile_Flare".spec_bytes(),
            "CTFProjectile_EnergyBall".spec_bytes(),
            "CTFProjectile_HealingBolt".spec_bytes(),
            "CTFProjectile_Arrow".spec_bytes(),
            "CTFProjectile_SentryRocket".spec_bytes(),
            "CTFProjectile_Throwable".spec_bytes(),
            "CTFThrowable".spec_bytes(),
            "CTFProjectile_Cleaver".spec_bytes(),
            "CTFProjectile_JarMilk".spec_bytes(),
            "CTFProjectile_Jar".spec_bytes(),
            "CTFStunBall".spec_bytes(),
            "CTFGrenadePipebombProjectile".spec_bytes(),
            "CTFBall_Ornament".spec_bytes(),
        ];
    assert(names[0] == "CTFProjectile_Rocket".spec_bytes());
    assert(names[1] == "CTFProjectile_Flare".spec_bytes());
    assert(names[2] == "CTFProjectile_EnergyBall".spec_bytes());
    assert(names[3] == "CTFProjectile_HealingBolt".spec_bytes());
    assert(names[4] == "CTFProjectile_Arrow".spec_bytes());
    assert(names[5] == "CTFProjectile_SentryRocket".spec_bytes());
    assert(names[6] == "CTFProjectile_Throwable".spec_bytes());
    assert(names[7] == "CTFThrowable".spec_bytes());
    assert(names[8] == "CTFProjectile_Cleaver".spec_bytes());
    assert(names[9] == "CTFProjectile_JarMilk".spec_bytes());
    assert(names[10] == "CTFProjectile_Jar".spec_bytes());
    assert(names[11] == "CTFStunBall".spec_bytes());
    assert(names[12] == "CTFGrenadePipebombProjectile".spec_bytes());
    assert(names[13] == "CTFBall_Ornament".spec_bytes());
    if spec_is_reflectable(class_name) {
        if class_name == "CTFProjectile_Rocket".spec_bytes() {
            assert(names[0] == class_name);
        }
        if class_name == "CTFProjectile_Flare".spec_bytes() {
            assert(names[1] == class_name);
        }
        if class_name == "CTFProjectile_EnergyBall".spec_bytes() {
            assert(names[2] == class_name);
        }
        if class_name == "CTFProjectile_HealingBolt".spec_bytes() {
            assert(names[3] == class_name);
        }
        if class_name == "CTFProjectile_Arrow".spec_bytes() {
            assert(names[4] == class_name);
        }
        if class_name == "CTFProjectile_SentryRocket".spec_bytes() {
            assert(names[5] == class_name);
        }
        if class_name == "CTFProjectile_Throwable".spec_bytes() {
            assert(names[6] == class_name);
        }
        if class_name == "CTFThrowable".spec_bytes() {
            assert(names[7] == class_name);
        }
        if class_name == "CTFProjectile_Cleaver".spec_bytes() {
            assert(names[8] == class_name);
        }
        if class_name == "CTFProjectile_JarMilk".spec_bytes() {
            assert(names[9] == class_name);
        }
        if class_name == "CTFProjectile_Jar".spec_bytes() {
            assert(names[10] == class_name);
        }
        if class_name == "CTFStunBall".spec_bytes() {
            assert(names[11] == class_name);
        }
        if class_name == "CTFGrenadePipebombProjectile".spec_bytes() {
            assert(names[12] == class_name);
        }
        if class_name == "CTFBall_Ornament".spec_bytes() {
            assert(names[13] == class_name);
        }
    }
}

/// An entity is a candidate for the airblast: not dormant, a reflectable
/// projectile, and not on `my_team`. Whether it is close enough is decided
/// afterwards from its predicted position.
pub fn is_reflect_candidate(ent: &EntityInfo, my_team: i32) -> (r: bool)
    ensures
        r == (!ent.dormant && spec_is_reflectable(ent.class_name@) && ent.team != my_team),
{
    if ent.dormant {
        return false;
    }
    if !is_reflectable(ent.class_name.as_slice()) {
        return false;
    }
    let friendly = ent.team == my_team;
    !friendly
}

/// The entity indices still to be tried by the airblast, in order: from
/// `current` up to and including `highest`.
pub open spec fn remaining_candidates(current: int, highest: int) -> Seq<int>
    decreases highest + 1 - current,
{
    if current <= highest {
        seq![current] + remaining_candidates(current + 1, highest)
    } else {
        Seq::empty()
    }
}

/// Walks the entity indices from 0 up to and including the highest index.
/// A candidate stays current until it is rejected, so a walk that found a
/// projectile finds the same one again.
pub struct Targets {
    current_entnum: i32,
    highest_entnum: i32,
}

impl Targets {
    /// The entity index the walk stands on.
    pub closed spec fn current(&self) -> int {
        self.current_entnum as int
    }

    /// The last index (inclusive) of the walk.
    pub closed spec fn highest(&self) -> int {
        self.highest_entnum as int
    }

    /// Starts a walk at index 0.
    pub fn new(highest_entnum: i32) -> (t: Targets)
        ensures
            t.current() == 0,
            t.highest() == highest_entnum,
    {
        Targets { current_entnum: 0, highest_entnum }
    }

    /// The entity index to try now, or `None` when the walk is over.
    pub fn candidate(&self) -> (r: Option<i32>)
        ensures
            r == (if self.current() <= self.highest() {
                Some(self.current() as i32)
            } else {
                None
            }),
            match r {
                Some(i) => remaining_candidates(self.current(), self.highest()).len() > 0 && i
                    == remaining_candidates(self.current(), self.highest())[0],
                None => remaining_candidates(self.current(), self.highest()).len() == 0,
            },
    {
        if self.current_entnum <= self.highest_entnum {
            Some(self.current_entnum)
        } else {
            None
        }
    }

    /// Moves past the current index, which held no reflectable projectile.
    pub fn reject(&mut self)
        requires
            old(self).current() <= old(self).highest(),
            old(self).current() < i32::MAX,
        ensures
            final(self).current() == old(self).current() + 1,
            final(self).highest() == old(self).highest(),
            remaining_candidates(final(self).current(), final(self).highest())
                == remaining_candidates(old(self).current(), old(self).highest()).drop_first(),
    {
        let ghost c = self.current_entnum as int;
        self.current_entnum = self.current_entnum + 1;
        assert(remaining_candidates(c, self.highest_entnum as int).drop_first()
            =~= remaining_candidates(c + 1, self.highest_entnum as int));
    }

    /// Walks on until `get_target` finds a projectile: asks it about each
    /// index from the current one up to and including the highest, moving
    /// past each index where it finds nothing, and returns the first
    /// projectile found without moving past its index; `None` when no index
    /// is left. Moving past index `i32::MAX` would overflow, so there the
    /// probe must find something.
    pub fn next_target<T, F: Fn(i32) -> Option<T>>(&mut self, get_target: F) -> (r: Option<T>)
        requires
            forall|i: i32| call_requires(get_target, (i,)),
            old(self).highest() == i32::MAX ==> forall|o: Option<T>|
                #[trigger] call_ensures(get_target, (i32::MAX,), o) ==> o is Some,
        ensures
            final(self).highest() == old(self).highest(),
            match r {
                Some(t) => {
                    &&& old(self).current() <= final(self).current() <= old(self).highest()
                    &&& call_ensures(get_target, (final(self).current() as i32,), Some(t))
                    &&& forall|j: i32|
                        old(self).current() <= j < final(self).current() ==> #[trigger] call_ensures(get_target, (j,), None)
                },
                None => {
                    &&& final(self).current() == (if old(self).current() <= old(self).highest() {
                        old(self).highest() + 1
                    } else {
                        old(self).current()
                    })
                    &&& forall|j: i32|
                        old(self).current() <= j <= old(self).highest() ==> #[trigger] call_ensures(get_target, (j,), None)
                },
            },
    {
        let ghost start = self.current_entnum as int;
        while self.current_entnum <= self.highest_entnum
            invariant
                forall|i: i32| call_requires(get_target, (i,)),
                self.highest_entnum == old(self).highest_entnum,
                self.highest_entnum == i32::MAX ==> forall|o: Option<T>|
                    #[trigger] call_ensures(get_target, (i32::MAX,), o) ==> o is Some,
                start == old(self).current_entnum,
                start <= self.current_entnum,
                start <= self.highest_entnum ==> self.current_entnum <= self.highest_entnum + 1,
                start > self.highest_entnum ==> self.current_entnum == start,
                forall|j: i32|
                    start <= j < self.current_entnum ==> #[trigger] call_ensures(get_target, (j,), None),
            decreases self.highest_entnum + 1 - self.current_entnum,
        {
            let idx: i32 = self.current_entnum;
            let targ = get_target(idx);
            match targ {
                Some(t) => {
                    return Some(t);
                },
                None => {},
            }
            self.current_entnum = self.current_entnum + 1;
        }
        None
    }
}

/// Law: the airblast walk tries exactly the indices `current, ..., highest`,
/// each once and in increasing order (the last one included).
pub proof fn lemma_candidates_are_the_range(current: int, highest: int)
    ensures
        remaining_candidates(current, highest) == Seq::new(
            (if current <= highest { highest + 1 - current } else { 0 }) as nat,
            |k: int| current + k,
        ),
    decreases highest + 1 - current,
{
    if current <= highest {
        lemma_candidates_are_the_range(current + 1, highest);
        assert(remaining_candidates(current, highest) =~= Seq::new(
            (highest + 1 - current) as nat,
            |k: int| current + k,
        ));
    } else {
        assert(remaining_candidates(current, highest) =~= Seq::<int>::empty());
    }
}

} // verus!
