use tfcore::hooks::{
    command_slot, finalize_command, glow_updates, is_minigun, locate_cinput, serialize_usercmd,
    verify_usercmd, player_glow_updates, seal_command, GlowEntity, PLAYER_SLOTS, FORCED_COMMAND_NUMBER, FORCED_RANDOM_SEED,
};
use tfcore::predict::predict_local_command;
use tfcore::sdk::{CUserCmd, CVerifiedUserCmd, QAngleBits};

fn zero_cmd() -> CUserCmd {
    CUserCmd {
        vtable_ptr: 0,
        command_number: 0,
        tick_count: 0,
        viewangles: QAngleBits { pitch: 0, yaw: 0, roll: 0 },
        forwardmove: 0,
        sidemove: 0,
        upmove: 0,
        buttons: 0,
        impulse: 0,
        weaponselect: 0,
        weaponsubtype: 0,
        random_seed: 0,
        mousedx: 0,
        mousedy: 0,
        hasbeenpredicted: false,
    }
}

fn sample_cmd() -> CUserCmd {
    CUserCmd {
        command_number: 7,
        tick_count: 100,
        viewangles: QAngleBits { pitch: 1.0f32.to_bits(), yaw: 0, roll: 0 },
        forwardmove: 400.0f32.to_bits(),
        buttons: 1,
        random_seed: 39,
        ..zero_cmd()
    }
}

#[test]
fn serialization_is_little_endian_field_by_field() {
    let bytes = serialize_usercmd(&sample_cmd());
    assert_eq!(
        bytes,
        vec![
            7, 0, 0, 0, 100, 0, 0, 0, 0, 0, 128, 63, 0, 0, 0, 0, 0, 0, 0, 0, 0, 0, 200, 67, 0, 0,
            0, 0, 0, 0, 0, 0, 1, 0, 0, 0, 0, 0, 0, 0, 0, 0, 0, 0, 0, 39, 0, 0, 0, 0, 0, 0, 0
        ]
    );
}

#[test]
fn serialization_of_negative_and_wide_fields() {
    let cmd = CUserCmd { command_number: -1, impulse: 201, mousedx: 0x1234, mousedy: 0xFFFF, ..zero_cmd() };
    let bytes = serialize_usercmd(&cmd);
    assert_eq!(bytes.len(), 53);
    assert_eq!(&bytes[0..4], &[0xFF, 0xFF, 0xFF, 0xFF]);
    assert_eq!(bytes[36], 201);
    assert_eq!(&bytes[49..53], &[0x34, 0x12, 0xFF, 0xFF]);
}

#[test]
fn checksum_of_sample_command() {
    let mut v = CVerifiedUserCmd { m_cmd: sample_cmd(), m_crc: 0 };
    verify_usercmd(&mut v);
    assert_eq!(v.m_crc, 0xe449f8bf);
    assert_eq!(v.m_cmd.command_number, 7);
}

#[test]
fn checksum_of_zero_command() {
    let mut v = CVerifiedUserCmd { m_cmd: zero_cmd(), m_crc: 12345 };
    verify_usercmd(&mut v);
    assert_eq!(v.m_crc, 0x19af770e);
    assert_eq!(v.m_crc, crc::crc32::checksum_ieee(&[0u8; 53]));
}

#[test]
fn checksum_ignores_vtable_and_prediction_flag() {
    let mut a = CVerifiedUserCmd { m_cmd: sample_cmd(), m_crc: 0 };
    let mut b = CVerifiedUserCmd {
        m_cmd: CUserCmd { vtable_ptr: 0xDEAD, hasbeenpredicted: true, ..sample_cmd() },
        m_crc: 0,
    };
    verify_usercmd(&mut a);
    verify_usercmd(&mut b);
    assert_eq!(a.m_crc, b.m_crc);
    let mut c = CVerifiedUserCmd { m_cmd: CUserCmd { tick_count: 101, ..sample_cmd() }, m_crc: 0 };
    verify_usercmd(&mut c);
    assert_ne!(a.m_crc, c.m_crc);
}

#[test]
fn command_slots_wrap_at_ninety() {
    assert_eq!(command_slot(0), 0);
    assert_eq!(command_slot(89), 89);
    assert_eq!(command_slot(90), 0);
    assert_eq!(command_slot(1234), 64);
    assert_eq!(command_slot(-1), -1);
    assert_eq!(command_slot(-181), -1);
    assert_eq!(command_slot(i32::MIN), i32::MIN % 90);
}

#[test]
fn cinput_operand_is_located() {
    let mut code = vec![0x90u8; 100];
    code[10] = 0x8B;
    code[11] = 0x0D;
    code[40] = 0x8B;
    code[41] = 0x0D;
    assert_eq!(locate_cinput(&code), Some(12));
}

#[test]
fn cinput_missing_or_past_the_scan() {
    let code = vec![0x90u8; 120];
    assert_eq!(locate_cinput(&code), None);
    let mut late = vec![0x90u8; 120];
    late[99] = 0x8B;
    late[100] = 0x0D;
    assert_eq!(locate_cinput(&late), None);
    let mut edge = vec![0x90u8; 100];
    edge[98] = 0x8B;
    edge[99] = 0x0D;
    assert_eq!(locate_cinput(&edge), None);
    edge[97] = 0x8B;
    edge[98] = 0x0D;
    assert_eq!(locate_cinput(&edge), Some(99));
}

#[test]
fn minigun_is_recognised() {
    assert!(is_minigun(b"CTFMinigun"));
    assert!(!is_minigun(b"CTFMinigunX"));
    assert!(!is_minigun(b"CTFShotgun"));
}

#[test]
fn jump_released_in_air_and_attack_without_target() {
    let mut cmd = CUserCmd { buttons: 0b111, ..zero_cmd() };
    finalize_command(&mut cmd, 0, false);
    assert_eq!(cmd.buttons, 0b100);
    assert_eq!(cmd.command_number, FORCED_COMMAND_NUMBER);
    assert_eq!(cmd.random_seed, FORCED_RANDOM_SEED);
    assert_eq!(cmd.command_number, 2076615043);
    assert_eq!(cmd.random_seed, 39);
}

#[test]
fn buttons_kept_on_ground_with_target() {
    let mut cmd = CUserCmd { buttons: 0b111, tick_count: 55, ..zero_cmd() };
    finalize_command(&mut cmd, 1, true);
    assert_eq!(cmd.buttons, 0b111);
    assert_eq!(cmd.tick_count, 55);
    let mut cmd2 = CUserCmd { buttons: -1, ..zero_cmd() };
    finalize_command(&mut cmd2, 0x81, false);
    assert_eq!(cmd2.buttons, -2);
}

#[test]
fn glow_for_living_non_dormant_players_except_me() {
    let enemy = GlowEntity { dormant: false, life_state: 0, team: 3 };
    let friend = GlowEntity { dormant: false, life_state: 0, team: 2 };
    let dead = GlowEntity { dormant: false, life_state: 2, team: 3 };
    let asleep = GlowEntity { dormant: true, life_state: 0, team: 3 };
    let mut ents = vec![None; 31];
    ents[0] = Some(enemy);
    ents[1] = Some(friend);
    ents[2] = Some(dead);
    ents[3] = Some(asleep);
    ents[4] = Some(enemy);
    ents[30] = Some(friend);
    let r = glow_updates(5, 2, &ents);
    assert_eq!(r, vec![(1, true), (2, false), (31, false)]);
}

#[test]
fn prediction_releases_both_attacks() {
    let cmd = CUserCmd { buttons: 0x0FFF, tick_count: 9, ..zero_cmd() };
    let tmp = predict_local_command(true, &cmd).unwrap();
    assert_eq!(tmp.buttons, 0x07FE);
    assert_eq!(tmp.tick_count, 9);
    assert_eq!(cmd.buttons, 0x0FFF);
    assert!(predict_local_command(false, &cmd).is_none());
}

#[test]
fn glow_over_the_hooks_player_slots() {
    let enemy = GlowEntity { dormant: false, life_state: 0, team: 3 };
    let mut ents = vec![Some(enemy); PLAYER_SLOTS];
    ents[1] = None;
    let r = player_glow_updates(1, 2, &ents);
    assert_eq!(PLAYER_SLOTS, 31);
    assert_eq!(r.len(), 29);
    assert_eq!(r[0], (3, true));
    assert_eq!(r[28], (31, true));
}

#[test]
fn sealing_pairs_the_command_with_its_checksum() {
    let sealed = seal_command(sample_cmd());
    assert_eq!(sealed.m_crc, 0xe449f8bf);
    assert_eq!(sealed.m_cmd.tick_count, 100);
    assert_eq!(sealed.m_cmd.command_number, 7);
}
