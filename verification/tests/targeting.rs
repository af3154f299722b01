use tfcore::aimbot::target::{aim_point, condition_ok, target_kind, AimPoint, EntityInfo, TargetKind, Targets};
use tfcore::aimbot::targets;
use tfcore::airblast;
use tfcore::triggerbot::{should_trigger, TraceHit};

fn ent(class: &str, team: i32) -> EntityInfo {
    EntityInfo { dormant: false, class_name: class.as_bytes().to_vec(), team, life_state: 0, cond: 0, cond_ex: 0 }
}

#[test]
fn classes_are_classified() {
    assert_eq!(target_kind(b"CTFPlayer"), Some(TargetKind::Player));
    assert_eq!(target_kind(b"CObjectSentrygun"), Some(TargetKind::Building));
    assert_eq!(target_kind(b"CTFTankBoss"), Some(TargetKind::Building));
    assert_eq!(target_kind(b"CObjectDispenser"), None);
    assert_eq!(target_kind(b""), None);
}

#[test]
fn protecting_conditions_block_players() {
    assert!(condition_ok(0, 0));
    assert!(!condition_ok(1 << 5, 0));
    assert!(!condition_ok(1 << 13, 0));
    assert!(!condition_ok(1 << 14, 0));
    assert!(!condition_ok(0, 1 << 19));
    assert!(condition_ok(!(1 << 5 | 1 << 13 | 1 << 14), !(1 << 19)));
}

#[test]
fn enemy_player_is_aimed_at_bones() {
    assert_eq!(aim_point(&ent("CTFPlayer", 3), 2), Some(AimPoint::Bones));
}

#[test]
fn enemy_building_is_aimed_at_centre_whatever_its_conditions() {
    let mut e = ent("CObjectSentrygun", 3);
    e.cond = -1;
    e.cond_ex = -1;
    assert_eq!(aim_point(&e, 2), Some(AimPoint::Center));
}

#[test]
fn rejected_entities() {
    assert_eq!(aim_point(&ent("CTFPlayer", 2), 2), None);
    let mut dead = ent("CTFPlayer", 3);
    dead.life_state = 1;
    assert_eq!(aim_point(&dead, 2), None);
    let mut dormant = ent("CTFPlayer", 3);
    dormant.dormant = true;
    assert_eq!(aim_point(&dormant, 2), None);
    let mut uber = ent("CTFPlayer", 3);
    uber.cond = 1 << 5;
    assert_eq!(aim_point(&uber, 2), None);
    assert_eq!(aim_point(&ent("CTFAmmoPack", 3), 2), None);
}

#[test]
fn aimbot_walk_visits_each_index_below_highest_once() {
    let mut t = targets(4);
    let mut seen = Vec::new();
    while let Some(i) = t.next_candidate() {
        seen.push(i);
    }
    assert_eq!(seen, vec![0, 1, 2, 3]);
    assert_eq!(t.next_candidate(), None);
    let mut empty = Targets::new(0);
    assert_eq!(empty.next_candidate(), None);
    let mut negative = Targets::new(-3);
    assert_eq!(negative.next_candidate(), None);
}

#[test]
fn airblast_walk_includes_highest_and_stays_on_a_hit() {
    let mut t = airblast::Targets::new(2);
    let mut seen = Vec::new();
    while let Some(i) = t.candidate() {
        seen.push(i);
        t.reject();
    }
    assert_eq!(seen, vec![0, 1, 2]);
    let t2 = airblast::Targets::new(5);
    assert_eq!(t2.candidate(), Some(0));
    assert_eq!(t2.candidate(), Some(0));
}

#[test]
fn reflectable_projectiles() {
    for name in [
        "CTFProjectile_Rocket", "CTFProjectile_Flare", "CTFProjectile_EnergyBall",
        "CTFProjectile_HealingBolt", "CTFProjectile_Arrow", "CTFProjectile_SentryRocket",
        "CTFProjectile_Throwable", "CTFThrowable", "CTFProjectile_Cleaver",
        "CTFProjectile_JarMilk", "CTFProjectile_Jar", "CTFStunBall",
        "CTFGrenadePipebombProjectile", "CTFBall_Ornament",
    ] {
        assert!(airblast::is_reflectable(name.as_bytes()), "{}", name);
    }
    assert!(!airblast::is_reflectable(b"CTFPlayer"));
    assert!(!airblast::is_reflectable(b"CTFProjectile_Rocket2"));
}

#[test]
fn reflect_candidates_are_enemy_projectiles() {
    assert!(airblast::is_reflect_candidate(&ent("CTFProjectile_Rocket", 3), 2));
    assert!(!airblast::is_reflect_candidate(&ent("CTFProjectile_Rocket", 2), 2));
    let mut d = ent("CTFProjectile_Rocket", 3);
    d.dormant = true;
    assert!(!airblast::is_reflect_candidate(&d, 2));
    assert!(!airblast::is_reflect_candidate(&ent("CTFPlayer", 3), 2));
}

#[test]
fn trigger_only_on_enemy_players() {
    assert!(!should_trigger(None, 2));
    assert!(should_trigger(Some(TraceHit { index: 1, team: 3 }), 2));
    assert!(should_trigger(Some(TraceHit { index: 32, team: 3 }), 2));
    assert!(!should_trigger(Some(TraceHit { index: 33, team: 3 }), 2));
    assert!(!should_trigger(Some(TraceHit { index: 0, team: 3 }), 2));
    assert!(!should_trigger(Some(TraceHit { index: 5, team: 2 }), 2));
}

#[test]
fn aimbot_walk_stops_just_past_the_first_target() {
    let mut t = targets(10);
    let found = t.next_target(|i| if i == 3 || i == 6 { Some(i * 10) } else { None });
    assert_eq!(found, Some(30));
    assert_eq!(t.next_candidate(), Some(4));
    let again = t.next_target(|i| if i == 3 || i == 6 { Some(i * 10) } else { None });
    assert_eq!(again, Some(60));
    let none = t.next_target(|i| if i == 3 || i == 6 { Some(i * 10) } else { None });
    assert_eq!(none, None);
    assert_eq!(t.next_candidate(), None);
}

#[test]
fn airblast_walk_stays_on_the_found_projectile() {
    let mut t = airblast::Targets::new(5);
    let probe = |i: i32| if i == 5 { Some("rocket") } else { None };
    assert_eq!(t.next_target(probe), Some("rocket"));
    assert_eq!(t.candidate(), Some(5));
    assert_eq!(t.next_target(probe), Some("rocket"));
    let mut u = airblast::Targets::new(2);
    assert_eq!(u.next_target(|_| None::<u8>), None);
    assert_eq!(u.candidate(), None);
}
