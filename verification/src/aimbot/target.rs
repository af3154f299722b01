use vstd::prelude::*;
use crate::utils::bytes_equal;
use vstd::string::StringSliceAdditionalSpecFns;

verus! {

/// What kind of entity the aimbot may aim at.
#[derive(PartialEq, Eq, Structural, Clone, Copy, Debug)]
pub enum TargetKind {
    /// A player (`CTFPlayer`): aimed at one of its bones.
    Player,
    /// A sentry gun (`CObjectSentrygun`) or a tank (`CTFTankBoss`): aimed at
    /// the centre of its bounding box.
    Building,
}

/// Where on a chosen target the aimbot aims.
#[derive(PartialEq, Eq, Structural, Clone, Copy, Debug)]
pub enum AimPoint {
    /// The first visible bone of the player's skeleton.
    Bones,
    /// The centre of the entity's bounding box.
    Center,
}

/// The kind of target an entity of this client class is, if any.
pub open spec fn spec_target_kind(class_name: Seq<u8>) -> Option<TargetKind> {
    if class_name == "CTFPlayer".spec_bytes() {
        Some(TargetKind::Player)
    } else if class_name == "CObjectSentrygun".spec_bytes() || class_name
        == "CTFTankBoss".spec_bytes() {
        Some(TargetKind::Building)
    } else {
        None
    }
}

/// Classifies an entity by the name of its client class.
pub fn target_kind(class_name: &[u8]) -> (r: Option<TargetKind>)
    ensures
        r == spec_target_kind(class_name@),
{
    if bytes_equal(class_name, "CTFPlayer".as_bytes()) {
        Some(TargetKind::Player)
    } else if bytes_equal(class_name, "CObjectSentrygun".as_bytes()) || bytes_equal(
        class_name,
        "CTFTankBoss".as_bytes(),
    ) {
        Some(TargetKind::Building)
    } else {
        None
    }
}

/// A player can be hurt: none of the condition bits 5, 13 and 14 of
/// `cond`, nor bit 19 of `cond_ex`, is set.
pub open spec fn spec_condition_ok(cond: i32, cond_ex: i32) -> bool {
    &&& cond & (1i32 << 5u32) == 0
    &&& cond & (1i32 << 13u32) == 0
    &&& cond & (1i32 << 14u32) == 0
    &&& cond_ex & (1i32 << 19u32) == 0
}

/// Checks the player condition flags.
pub fn condition_ok(cond: i32, cond_ex: i32) -> (r: bool)
    ensures
        r == spec_condition_ok(cond, cond_ex),
{
    let mask: i32 = 1i32 << 14u32 | 1i32 << 5u32 | 1i32 << 13u32;
    let r = (cond & mask) == 0 && (cond_ex & (1i32 << 19u32)) == 0;
    assert(r == spec_condition_ok(cond, cond_ex)) by (bit_vector)
        requires
            mask == 1i32 << 14u32 | 1i32 << 5u32 | 1i32 << 13u32,
            r == ((cond & mask) == 0 && (cond_ex & (1i32 << 19u32)) == 0),
    ;
    r
}

/// What the library reads of an entity to decide whether to aim at it.
pub struct EntityInfo {
    pub dormant: bool,
    pub class_name: Vec<u8>,
    pub team: i32,
    pub life_state: i8,
    pub cond: i32,
    pub cond_ex: i32,
}

/// Where to aim at the entity `ent`, if it is a target: not dormant, of a
/// targetable class, on another team than `my_team`, alive, and, for a
/// player, in no protecting condition.
pub open spec fn spec_aim_point(ent: EntityInfo, my_team: i32) -> Option<AimPoint> {
    if ent.dormant {
        None
    } else {
        match spec_target_kind(ent.class_name@) {
            None => None,
            Some(kind) => {
                let condok = match kind {
                    TargetKind::Player => spec_condition_ok(ent.cond, ent.cond_ex),
                    TargetKind::Building => true,
                };
                if ent.team != my_team && ent.life_state == 0 && condok {
                    match kind {
                        TargetKind::Player => Some(AimPoint::Bones),
                        TargetKind::Building => Some(AimPoint::Center),
                    }
                } else {
                    None
                }
            },
        }
    }
}

/// Decides whether, and where, to aim at an entity.
pub fn aim_point(ent: &EntityInfo, my_team: i32) -> (r: Option<AimPoint>)
    ensures
        r == spec_aim_point(*ent, my_team),
{
    if ent.dormant {
        return None;
    }
    let kind = match target_kind(ent.class_name.as_slice()) {
        Some(k) => k,
        None => return None,
    };
    let friendly = ent.team == my_team;
    let alive = ent.life_state == 0;
    let condok = match kind {
        TargetKind::Player => condition_ok(ent.cond, ent.cond_ex),
        TargetKind::Building => true,
    };
    if !friendly && alive && condok {
        match kind {
            TargetKind::Player => Some(AimPoint::Bones),
            TargetKind::Building => Some(AimPoint::Center),
        }
    } else {
        None
    }
}

/// Law: the aimbot only ever aims at a living, non-dormant entity of a
/// targetable class on another team, at the bones of players and at the
/// centre of buildings, and never at a player in a protecting condition.
pub proof fn lemma_aim_point_only_living_enemies(ent: EntityInfo, my_team: i32)
    ensures
        spec_aim_point(ent, my_team) is Some ==> {
            &&& !ent.dormant
            &&& ent.team != my_team
            &&& ent.life_state == 0
            &&& spec_target_kind(ent.class_name@) is Some
        },
        spec_aim_point(ent, my_team) == Some(AimPoint::Bones) ==> spec_target_kind(
            ent.class_name@,
        ) == Some(TargetKind::Player) && spec_condition_ok(ent.cond, ent.cond_ex),
        spec_aim_point(ent, my_team) == Some(AimPoint::Center) ==> spec_target_kind(
            ent.class_name@,
        ) == Some(TargetKind::Building),
{
}

proof fn lemma_ascii_bytes_len(s: &str)
    requires
        vstd::utf8::is_ascii_chars(s@),
    ensures
        s.spec_bytes().len() == s@.len(),
{
    vstd::utf8::is_ascii_chars_encode_utf8(s@);
}

proof fn lemma_target_class_names_distinct()
    ensures
        "CTFPlayer".spec_bytes().len() == 9,
        "CObjectSentrygun".spec_bytes().len() == 16,
        "CTFTankBoss".spec_bytes().len() == 11,
{
    reveal_strlit("CTFPlayer");
    reveal_strlit("CObjectSentrygun");
    reveal_strlit("CTFTankBoss");
    lemma_ascii_bytes_len("CTFPlayer");
    lemma_ascii_bytes_len("CObjectSentrygun");
    lemma_ascii_bytes_len("CTFTankBoss");
}

/// Law: exactly three client classes are targets: `CTFPlayer` is a player,
/// `CObjectSentrygun` and `CTFTankBoss` are buildings, and every other byte
/// string is no target.
pub proof fn lemma_target_kind_classes(name: Seq<u8>)
    ensures
        (spec_target_kind(name) == Some(TargetKind::Player)) <==> name == "CTFPlayer".spec_bytes(),
        (spec_target_kind(name) == Some(TargetKind::Building)) <==> (name
            == "CObjectSentrygun".spec_bytes() || name == "CTFTankBoss".spec_bytes()),
        (spec_target_kind(name) is None) <==> (name != "CTFPlayer".spec_bytes() && name
            != "CObjectSentrygun".spec_bytes() && name != "CTFTankBoss".spec_bytes()),
{
    lemma_target_class_names_distinct();
}

proof fn lemma_condition_mask(cond: i32, cond_ex: i32)
    ensures
        spec_condition_ok(cond, cond_ex) <==> (cond & 0x6020i32 == 0 && cond_ex & 0x80000i32 == 0),
{
    assert(spec_condition_ok(cond, cond_ex) <==> (cond & 0x6020i32 == 0 && cond_ex & 0x80000i32
        == 0)) by (bit_vector);
}

/// Law: which entities the aimbot aims at, and where. A non-dormant, living
/// entity on another team than `my_team` is aimed at: at its bones when it
/// is a `CTFPlayer` none of whose condition bits 5, 13, 14 (of `cond`) and
/// 19 (of `cond_ex`) is set, at its centre when it is a `CObjectSentrygun`
/// or a `CTFTankBoss`. A player with one of those bits set, an entity of any
/// other class, a dormant or dead entity and a teammate are not aimed at.
pub proof fn lemma_aim_point_decides(ent: EntityInfo, my_team: i32)
    ensures
        !ent.dormant && ent.team != my_team && ent.life_state == 0 && ent.class_name@
            == "CTFPlayer".spec_bytes() && ent.cond & 0x6020i32 == 0 && ent.cond_ex & 0x80000i32
            == 0 ==> spec_aim_point(ent, my_team) == Some(AimPoint::Bones),
        !ent.dormant && ent.team != my_team && ent.life_state == 0 && (ent.class_name@
            == "CObjectSentrygun".spec_bytes() || ent.class_name@ == "CTFTankBoss".spec_bytes())
            ==> spec_aim_point(ent, my_team) == Some(AimPoint::Center),
        ent.class_name@ == "CTFPlayer".spec_bytes() && (ent.cond & 0x6020i32 != 0 || ent.cond_ex
            & 0x80000i32 != 0) ==> spec_aim_point(ent, my_team) is None,
        ent.class_name@ != "CTFPlayer".spec_bytes() && ent.class_name@
            != "CObjectSentrygun".spec_bytes() && ent.class_name@ != "CTFTankBoss".spec_bytes()
            ==> spec_aim_point(ent, my_team) is None,
        ent.dormant || ent.team == my_team || ent.life_state != 0 ==> spec_aim_point(ent, my_team)
            is None,
{
    lemma_target_kind_classes(ent.class_name@);
    lemma_condition_mask(ent.cond, ent.cond_ex);
}

/// Law: the choice does not depend on which team the local player is on,
/// as long as the entity is on another one.
pub proof fn lemma_aim_point_team_independent(ent: EntityInfo, team_a: i32, team_b: i32)
    requires
        ent.team != team_a,
        ent.team != team_b,
    ensures
        spec_aim_point(ent, team_a) == spec_aim_point(ent, team_b),
{
}

/// The entity indices still to be tried, in the order they are tried.
pub open spec fn remaining_candidates(current: int, highest: int) -> Seq<int>
    decreases highest - current,
{
    if current < highest {
        seq![current] + remaining_candidates(current + 1, highest)
    } else {
        Seq::empty()
    }
}

/// Walks the entity indices from 0 up to (not including) the highest index.
pub struct Targets {
    current_entnum: i32,
    highest_entnum: i32,
}

impl Targets {
    /// The next entity index to try.
    pub closed spec fn current(&self) -> int {
        self.current_entnum as int
    }

    /// The bound (exclusive) of the walk.
    pub closed spec fn highest(&self) -> int {
        self.highest_entnum as int
    }

    /// Starts a walk at index 0.
    pub fn new(highest_entnum: i32) -> (t: Targets)
        ensures
            t.current() == 0,
            t.highest() == highest_entnum,
    {
        Targets { current_entnum: 0, highest_entnum }
    }

    /// Hands out the next entity index to try and moves past it, or `None`
    /// when every index has been tried.
    pub fn next_candidate(&mut self) -> (r: Option<i32>)
        ensures
            final(self).highest() == old(self).highest(),
            old(self).current() < old(self).highest() ==> r == Some(
                old(self).current() as i32,
            ) && final(self).current() == old(self).current() + 1,
            old(self).current() >= old(self).highest() ==> r is None && final(self).current()
                == old(self).current(),
            remaining_candidates(final(self).current(), final(self).highest()) == (match r {
                Some(i) => remaining_candidates(old(self).current(), old(self).highest()).drop_first(),
                None => remaining_candidates(old(self).current(), old(self).highest()),
            }),
            match r {
                Some(i) => remaining_candidates(old(self).current(), old(self).highest()).len() > 0
                    && i == remaining_candidates(old(self).current(), old(self).highest())[0],
                None => remaining_candidates(old(self).current(), old(self).highest()).len() == 0,
            },
    {
        if self.current_entnum < self.highest_entnum {
            let idx: i32 = self.current_entnum;
            self.current_entnum = self.current_entnum + 1;
            assert(remaining_candidates(idx as int, self.highest_entnum as int).drop_first()
                =~= remaining_candidates(idx + 1, self.highest_entnum as int));
            Some(idx)
        } else {
            None
        }
    }

    /// Walks on until `get_target` finds a target: asks it about each index
    /// from the current one up to (not including) the highest, moving past
    /// each index it asks about, and returns the first target found; `None`
    /// when no index is left. The state it stops in is just past the index of
    /// the target.
    pub fn next_target<T, F: Fn(i32) -> Option<T>>(&mut self, get_target: F) -> (r: Option<T>)
        requires
            forall|i: i32| call_requires(get_target, (i,)),
        ensures
            final(self).highest() == old(self).highest(),
            match r {
                Some(t) => {
                    &&& old(self).current() < final(self).current() <= old(self).highest()
                    &&& call_ensures(get_target, ((final(self).current() - 1) as i32,), Some(t))
                    &&& forall|j: i32|
                        old(self).current() <= j < final(self).current() - 1 ==> #[trigger] call_ensures(get_target, (j,), None)
                },
                None => {
                    &&& final(self).current() == (if old(self).current() < old(self).highest() {
                        old(self).highest()
                    } else {
                        old(self).current()
                    })
                    &&& forall|j: i32|
                        old(self).current() <= j < old(self).highest() ==> #[trigger] call_ensures(get_target, (j,), None)
                },
            },
    {
        let ghost start = self.current_entnum as int;
        while self.current_entnum < self.highest_entnum
            invariant
                forall|i: i32| call_requires(get_target, (i,)),
                start <= self.current_entnum,
                self.highest_entnum == old(self).highest_entnum,
                start == old(self).current_entnum,
                start < self.highest_entnum ==> self.current_entnum <= self.highest_entnum,
                start >= self.highest_entnum ==> self.current_entnum == start,
                forall|j: i32|
                    start <= j < self.current_entnum ==> #[trigger] call_ensures(get_target, (j,), None),
            decreases self.highest_entnum - self.current_entnum,
        {
            let idx: i32 = self.current_entnum;
            let targ = get_target(idx);
            self.current_entnum = self.current_entnum + 1;
            match targ {
                Some(t) => {
                    return Some(t);
                },
                None => {},
            }
        }
        None
    }
}

/// Law: the walk hands out exactly the indices `current, current + 1, ...,
/// highest - 1`, each once and in increasing order, and nothing when
/// `current >= highest`.
pub proof fn lemma_candidates_are_the_range(current: int, highest: int)
    ensures
        remaining_candidates(current, highest) == Seq::new(
            (if current < highest { highest - current } else { 0 }) as nat,
            |k: int| current + k,
        ),
    decreases highest - current,
{
    if current < highest {
        lemma_candidates_are_the_range(current + 1, highest);
        assert(remaining_candidates(current, highest) =~= Seq::new(
            (highest - current) as nat,
            |k: int| current + k,
        ));
    } else {
        assert(remaining_candidates(current, highest) =~= Seq::<int>::empty());
    }
}

} // verus!
