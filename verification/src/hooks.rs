use vstd::prelude::*;
use crate::sdk::CUserCmd;
use crate::sdk::CVerifiedUserCmd;
use crate::utils::{bytes_equal, search_memory, first_match, no_match};
use vstd::string::StringSliceAdditionalSpecFns;

verus! {

/// The four little-endian bytes of `x`.
pub open spec fn le_bytes_u32(x: u32) -> Seq<u8> {
    seq![
        (x % 256) as u8,
        ((x / 256) % 256) as u8,
        ((x / 65536) % 256) as u8,
        (x / 16777216) as u8,
    ]
}

/// The two little-endian bytes of `x`.
pub open spec fn le_bytes_u16(x: u16) -> Seq<u8> {
    seq![(x % 256) as u8, (x / 256) as u8]
}

/// The bytes of a user command that its checksum covers, field by field in
/// the order the server hashes them, each in little-endian byte order.
pub open spec fn usercmd_bytes(cmd: CUserCmd) -> Seq<u8> {
    le_bytes_u32(cmd.command_number as u32) + le_bytes_u32(cmd.tick_count as u32) + le_bytes_u32(
        cmd.viewangles.pitch,
    ) + le_bytes_u32(cmd.viewangles.yaw) + le_bytes_u32(cmd.viewangles.roll) + le_bytes_u32(
        cmd.forwardmove,
    ) + le_bytes_u32(cmd.sidemove) + le_bytes_u32(cmd.upmove) + le_bytes_u32(
        cmd.buttons as u32,
    ) + seq![cmd.impulse] + le_bytes_u32(cmd.weaponselect as u32) + le_bytes_u32(
        cmd.weaponsubtype as u32,
    ) + le_bytes_u32(cmd.random_seed as u32) + le_bytes_u16(cmd.mousedx) + le_bytes_u16(
        cmd.mousedy,
    )
}

/// The CRC-32 (IEEE 802.3 polynomial, reflected, initial value and final xor
/// `0xFFFFFFFF`) of `data`, as `crc::crc32::checksum_ieee` computes it.
pub uninterp spec fn crc32_ieee(data: Seq<u8>) -> u32;

/// Calls `crc::crc32::checksum_ieee`. The contract claims only that the
/// result is the crate's checksum of exactly the bytes handed in.
#[verifier::external_body]
fn checksum_ieee(bytes: &[u8]) -> (r: u32)
    ensures
        r == crc32_ieee(bytes@),
{
    crc::crc32::checksum_ieee(bytes)
}

fn push_u32_le(buf: &mut Vec<u8>, x: u32)
    ensures
        final(buf)@ == old(buf)@ + le_bytes_u32(x),
{
    buf.push((x % 256) as u8);
    buf.push(((x / 256) % 256) as u8);
    buf.push(((x / 65536) % 256) as u8);
    buf.push((x / 16777216) as u8);
}

fn push_u16_le(buf: &mut Vec<u8>, x: u16)
    ensures
        final(buf)@ == old(buf)@ + le_bytes_u16(x),
{
    buf.push((x % 256) as u8);
    buf.push((x / 256) as u8);
}

/// Serialises the fields of `cmd` that its checksum covers.
pub fn serialize_usercmd(cmd: &CUserCmd) -> (buf: Vec<u8>)
    ensures
        buf@ == usercmd_bytes(*cmd),
        buf@.len() == 53,
{
    let mut buf: Vec<u8> = Vec::new();
    push_u32_le(&mut buf, cmd.command_number as u32);
    push_u32_le(&mut buf, cmd.tick_count as u32);
    push_u32_le(&mut buf, cmd.viewangles.pitch);
    push_u32_le(&mut buf, cmd.viewangles.yaw);
    push_u32_le(&mut buf, cmd.viewangles.roll);
    push_u32_le(&mut buf, cmd.forwardmove);
    push_u32_le(&mut buf, cmd.sidemove);
    push_u32_le(&mut buf, cmd.upmove);
    push_u32_le(&mut buf, cmd.buttons as u32);
    buf.push(cmd.impulse);
    push_u32_le(&mut buf, cmd.weaponselect as u32);
    push_u32_le(&mut buf, cmd.weaponsubtype as u32);
    push_u32_le(&mut buf, cmd.random_seed as u32);
    push_u16_le(&mut buf, cmd.mousedx);
    push_u16_le(&mut buf, cmd.mousedy);
    assert(buf@ =~= usercmd_bytes(*cmd));
    buf
}

proof fn lemma_le_bytes_u32_injective(x: u32, y: u32)
    requires
        le_bytes_u32(x) == le_bytes_u32(y),
    ensures
        x == y,
{
    assert(le_bytes_u32(x)[0] == le_bytes_u32(y)[0]);
    assert(le_bytes_u32(x)[1] == le_bytes_u32(y)[1]);
    assert(le_bytes_u32(x)[2] == le_bytes_u32(y)[2]);
    assert(le_bytes_u32(x)[3] == le_bytes_u32(y)[3]);
    assert(x == (x % 256) + 256 * ((x / 256) % 256) + 65536 * ((x / 65536) % 256) + 16777216 * (x
        / 16777216)) by (bit_vector);
    assert(y == (y % 256) + 256 * ((y / 256) % 256) + 65536 * ((y / 65536) % 256) + 16777216 * (y
        / 16777216)) by (bit_vector);
}

proof fn lemma_le_bytes_u16_injective(x: u16, y: u16)
    requires
        le_bytes_u16(x) == le_bytes_u16(y),
    ensures
        x == y,
{
    assert(le_bytes_u16(x)[0] == le_bytes_u16(y)[0]);
    assert(le_bytes_u16(x)[1] == le_bytes_u16(y)[1]);
    assert(x == (x % 256) + 256 * (x / 256)) by (bit_vector);
    assert(y == (y % 256) + 256 * (y / 256)) by (bit_vector);
}

proof fn lemma_i32_as_u32_injective(x: i32, y: i32)
    requires
        x as u32 == y as u32,
    ensures
        x == y,
{
    assert(x as u32 == y as u32 ==> x == y) by (bit_vector);
}

proof fn lemma_split_equal(p1: Seq<u8>, q1: Seq<u8>, p2: Seq<u8>, q2: Seq<u8>)
    requires
        p1 + q1 == p2 + q2,
        q1.len() == q2.len(),
    ensures
        p1 == p2,
        q1 == q2,
{
    assert(p1 =~= (p1 + q1).take(p1.len() as int));
    assert(p2 =~= (p2 + q2).take(p2.len() as int));
    assert(q1 =~= (p1 + q1).skip(p1.len() as int));
    assert(q2 =~= (p2 + q2).skip(p2.len() as int));
}

/// The fields of a user command that its checksum covers: all but the
/// virtual table address and the prediction flag.
pub open spec fn same_covered_fields(a: CUserCmd, b: CUserCmd) -> bool {
    &&& a.command_number == b.command_number
    &&& a.tick_count == b.tick_count
    &&& a.viewangles.pitch == b.viewangles.pitch
    &&& a.viewangles.yaw == b.viewangles.yaw
    &&& a.viewangles.roll == b.viewangles.roll
    &&& a.forwardmove == b.forwardmove
    &&& a.sidemove == b.sidemove
    &&& a.upmove == b.upmove
    &&& a.buttons == b.buttons
    &&& a.impulse == b.impulse
    &&& a.weaponselect == b.weaponselect
    &&& a.weaponsubtype == b.weaponsubtype
    &&& a.random_seed == b.random_seed
    &&& a.mousedx == b.mousedx
    &&& a.mousedy == b.mousedy
}

/// The serialised fields of a user command, one byte string per field.
pub open spec fn usercmd_chunks(cmd: CUserCmd) -> Seq<Seq<u8>> {
    seq![
        le_bytes_u32(cmd.command_number as u32),
        le_bytes_u32(cmd.tick_count as u32),
        le_bytes_u32(cmd.viewangles.pitch),
        le_bytes_u32(cmd.viewangles.yaw),
        le_bytes_u32(cmd.viewangles.roll),
        le_bytes_u32(cmd.forwardmove),
        le_bytes_u32(cmd.sidemove),
        le_bytes_u32(cmd.upmove),
        le_bytes_u32(cmd.buttons as u32),
        seq![cmd.impulse],
        le_bytes_u32(cmd.weaponselect as u32),
        le_bytes_u32(cmd.weaponsubtype as u32),
        le_bytes_u32(cmd.random_seed as u32),
        le_bytes_u16(cmd.mousedx),
        le_bytes_u16(cmd.mousedy),
    ]
}

/// The concatenation of byte strings, in order.
pub open spec fn concat_chunks(chunks: Seq<Seq<u8>>) -> Seq<u8>
    decreases chunks.len(),
{
    if chunks.len() == 0 {
        Seq::empty()
    } else {
        concat_chunks(chunks.drop_last()) + chunks.last()
    }
}

proof fn lemma_concat_injective(c1: Seq<Seq<u8>>, c2: Seq<Seq<u8>>)
    requires
        c1.len() == c2.len(),
        forall|i: int| 0 <= i < c1.len() ==> (#[trigger] c1[i]).len() == c2[i].len(),
        concat_chunks(c1) == concat_chunks(c2),
    ensures
        forall|i: int| 0 <= i < c1.len() ==> #[trigger] c1[i] == c2[i],
    decreases c1.len(),
{
    if c1.len() > 0 {
        lemma_split_equal(
            concat_chunks(c1.drop_last()),
            c1.last(),
            concat_chunks(c2.drop_last()),
            c2.last(),
        );
        assert forall|i: int| 0 <= i < c1.len() - 1 implies (#[trigger] c1.drop_last()[i]).len()
            == c2.drop_last()[i].len() by {
            assert(c1.drop_last()[i] == c1[i]);
            assert(c2.drop_last()[i] == c2[i]);
        }
        lemma_concat_injective(c1.drop_last(), c2.drop_last());
        assert forall|i: int| 0 <= i < c1.len() implies #[trigger] c1[i] == c2[i] by {
            if i < c1.len() - 1 {
                assert(c1.drop_last()[i] == c1[i]);
                assert(c2.drop_last()[i] == c2[i]);
            }
        }
    }
}

#[verifier::spinoff_prover]
proof fn lemma_usercmd_bytes_are_chunks(cmd: CUserCmd)
    ensures
        usercmd_bytes(cmd) == concat_chunks(usercmd_chunks(cmd)),
{
    let c = usercmd_chunks(cmd);
    reveal_with_fuel(concat_chunks, 16);
    assert(concat_chunks(c) =~= usercmd_bytes(cmd));
}

#[verifier::spinoff_prover]
proof fn lemma_equal_chunks_equal_fields(a: CUserCmd, b: CUserCmd)
    requires
        forall|i: int|
            0 <= i < usercmd_chunks(a).len() ==> #[trigger] usercmd_chunks(a)[i]
                == usercmd_chunks(b)[i],
    ensures
        same_covered_fields(a, b),
{
    let ca = usercmd_chunks(a);
    let cb = usercmd_chunks(b);
    assert(ca[0] == cb[0] && ca[1] == cb[1] && ca[2] == cb[2] && ca[3] == cb[3]);
    assert(ca[4] == cb[4] && ca[5] == cb[5] && ca[6] == cb[6] && ca[7] == cb[7]);
    assert(ca[8] == cb[8] && ca[9] == cb[9] && ca[10] == cb[10] && ca[11] == cb[11]);
    assert(ca[12] == cb[12] && ca[13] == cb[13] && ca[14] == cb[14]);
    lemma_le_bytes_u32_injective(a.command_number as u32, b.command_number as u32);
    lemma_i32_as_u32_injective(a.command_number, b.command_number);
    lemma_le_bytes_u32_injective(a.tick_count as u32, b.tick_count as u32);
    lemma_i32_as_u32_injective(a.tick_count, b.tick_count);
    lemma_le_bytes_u32_injective(a.viewangles.pitch, b.viewangles.pitch);
    lemma_le_bytes_u32_injective(a.viewangles.yaw, b.viewangles.yaw);
    lemma_le_bytes_u32_injective(a.viewangles.roll, b.viewangles.roll);
    lemma_le_bytes_u32_injective(a.forwardmove, b.forwardmove);
    lemma_le_bytes_u32_injective(a.sidemove, b.sidemove);
    lemma_le_bytes_u32_injective(a.upmove, b.upmove);
    lemma_le_bytes_u32_injective(a.buttons as u32, b.buttons as u32);
    lemma_i32_as_u32_injective(a.buttons, b.buttons);
    assert(seq![a.impulse][0] == seq![b.impulse][0]);
    lemma_le_bytes_u32_injective(a.weaponselect as u32, b.weaponselect as u32);
    lemma_i32_as_u32_injective(a.weaponselect, b.weaponselect);
    lemma_le_bytes_u32_injective(a.weaponsubtype as u32, b.weaponsubtype as u32);
    lemma_i32_as_u32_injective(a.weaponsubtype, b.weaponsubtype);
    lemma_le_bytes_u32_injective(a.random_seed as u32, b.random_seed as u32);
    lemma_i32_as_u32_injective(a.random_seed, b.random_seed);
    lemma_le_bytes_u16_injective(a.mousedx, b.mousedx);
    lemma_le_bytes_u16_injective(a.mousedy, b.mousedy);
}

#[verifier::spinoff_prover]
proof fn lemma_chunk_lengths(a: CUserCmd, b: CUserCmd)
    ensures
        usercmd_chunks(a).len() == usercmd_chunks(b).len(),
        forall|i: int|
            0 <= i < usercmd_chunks(a).len() ==> (#[trigger] usercmd_chunks(a)[i]).len()
                == usercmd_chunks(b)[i].len(),
{
    let ca = usercmd_chunks(a);
    let cb = usercmd_chunks(b);
    assert forall|i: int| 0 <= i < ca.len() implies (#[trigger] ca[i]).len() == cb[i].len() by {
        if i == 9 {
            assert(ca[i].len() == 1 && cb[i].len() == 1);
        } else if i >= 13 {
            assert(ca[i].len() == 2 && cb[i].len() == 2);
        } else {
            assert(ca[i].len() == 4 && cb[i].len() == 4);
        }
    }
}

/// Law: two commands serialise to the same bytes exactly when they agree on
/// every covered field, so the checksum depends on those fields and on
/// nothing else.
#[verifier::spinoff_prover]
pub proof fn lemma_serialization_covers_exactly(a: CUserCmd, b: CUserCmd)
    ensures
        (usercmd_bytes(a) == usercmd_bytes(b)) <==> same_covered_fields(a, b),
        same_covered_fields(a, b) ==> crc32_ieee(usercmd_bytes(a)) == crc32_ieee(
            usercmd_bytes(b),
        ),
{
    if usercmd_bytes(a) == usercmd_bytes(b) {
        lemma_usercmd_bytes_are_chunks(a);
        lemma_usercmd_bytes_are_chunks(b);
        lemma_chunk_lengths(a, b);
        lemma_concat_injective(usercmd_chunks(a), usercmd_chunks(b));
        lemma_equal_chunks_equal_fields(a, b);
    }
    if same_covered_fields(a, b) {
        lemma_usercmd_bytes_are_chunks(a);
        lemma_usercmd_bytes_are_chunks(b);
        assert(usercmd_chunks(a) =~= usercmd_chunks(b));
    }
}

/// The number whose little-endian encoding is bytes `k..k + 4` of `s`.
pub open spec fn le_u32_at(s: Seq<u8>, k: int) -> int {
    s[k] + 256 * s[k + 1] + 65536 * s[k + 2] + 16777216 * s[k + 3]
}

/// The number whose little-endian encoding is bytes `k..k + 2` of `s`.
pub open spec fn le_u16_at(s: Seq<u8>, k: int) -> int {
    s[k] + 256 * s[k + 1]
}

proof fn lemma_le_u32_roundtrip(x: u32)
    ensures
        le_u32_at(le_bytes_u32(x), 0) == x,
{
    assert(x == (x % 256) + 256 * ((x / 256) % 256) + 65536 * ((x / 65536) % 256) + 16777216 * (x
        / 16777216)) by (bit_vector);
}

proof fn lemma_le_u16_roundtrip(x: u16)
    ensures
        le_u16_at(le_bytes_u16(x), 0) == x,
{
    assert(x == (x % 256) + 256 * (x / 256)) by (bit_vector);
}

proof fn lemma_concat_take_step(c: Seq<Seq<u8>>, k: int)
    requires
        0 <= k < c.len(),
    ensures
        concat_chunks(c.take(k + 1)) == concat_chunks(c.take(k)) + c[k],
{
    assert(c.take(k + 1).drop_last() =~= c.take(k));
}

proof fn lemma_concat_take_prefix(c: Seq<Seq<u8>>, k: int)
    requires
        0 <= k <= c.len(),
    ensures
        concat_chunks(c.take(k)).len() <= concat_chunks(c).len(),
        forall|i: int|
            0 <= i < concat_chunks(c.take(k)).len() ==> concat_chunks(c)[i] == #[trigger] concat_chunks(
                c.take(k),
            )[i],
    decreases c.len() - k,
{
    if k == c.len() {
        assert(c.take(k) =~= c);
    } else {
        lemma_concat_take_step(c, k);
        lemma_concat_take_prefix(c, k + 1);
        assert forall|i: int| 0 <= i < concat_chunks(c.take(k)).len() implies concat_chunks(c)[i]
            == #[trigger] concat_chunks(c.take(k))[i] by {
            assert(concat_chunks(c.take(k + 1))[i] == concat_chunks(c.take(k))[i]);
        }
    }
}

/// Chunk `k` of `c` stands in the concatenation right after the chunks before
/// it.
proof fn lemma_chunk_at(c: Seq<Seq<u8>>, k: int)
    requires
        0 <= k < c.len(),
    ensures
        forall|j: int|
            0 <= j < c[k].len() ==> concat_chunks(c)[concat_chunks(c.take(k)).len() + j]
                == #[trigger] c[k][j],
{
    lemma_concat_take_step(c, k);
    lemma_concat_take_prefix(c, k + 1);
    assert forall|j: int| 0 <= j < c[k].len() implies concat_chunks(c)[concat_chunks(
        c.take(k),
    ).len() + j] == #[trigger] c[k][j] by {
        let i = concat_chunks(c.take(k)).len() + j;
        assert(concat_chunks(c.take(k + 1))[i] == c[k][j]);
    }
}

proof fn lemma_usercmd_chunk_offsets(cmd: CUserCmd)
    ensures
        concat_chunks(usercmd_chunks(cmd).take(0)).len() == 0,
        concat_chunks(usercmd_chunks(cmd).take(1)).len() == 4,
        concat_chunks(usercmd_chunks(cmd).take(2)).len() == 8,
        concat_chunks(usercmd_chunks(cmd).take(3)).len() == 12,
        concat_chunks(usercmd_chunks(cmd).take(4)).len() == 16,
        concat_chunks(usercmd_chunks(cmd).take(5)).len() == 20,
        concat_chunks(usercmd_chunks(cmd).take(6)).len() == 24,
        concat_chunks(usercmd_chunks(cmd).take(7)).len() == 28,
        concat_chunks(usercmd_chunks(cmd).take(8)).len() == 32,
        concat_chunks(usercmd_chunks(cmd).take(9)).len() == 36,
        concat_chunks(usercmd_chunks(cmd).take(10)).len() == 37,
        concat_chunks(usercmd_chunks(cmd).take(11)).len() == 41,
        concat_chunks(usercmd_chunks(cmd).take(12)).len() == 45,
        concat_chunks(usercmd_chunks(cmd).take(13)).len() == 49,
        concat_chunks(usercmd_chunks(cmd).take(14)).len() == 51,
{
    let c = usercmd_chunks(cmd);
    assert(c.take(0) =~= Seq::<Seq<u8>>::empty());
    assert(c[0].len() == 4 && c[1].len() == 4 && c[2].len() == 4 && c[3].len() == 4);
    assert(c[4].len() == 4 && c[5].len() == 4 && c[6].len() == 4 && c[7].len() == 4);
    assert(c[8].len() == 4 && c[9].len() == 1 && c[10].len() == 4 && c[11].len() == 4);
    assert(c[12].len() == 4 && c[13].len() == 2 && c[14].len() == 2);
    lemma_concat_take_step(c, 0);
    lemma_concat_take_step(c, 1);
    lemma_concat_take_step(c, 2);
    lemma_concat_take_step(c, 3);
    lemma_concat_take_step(c, 4);
    lemma_concat_take_step(c, 5);
    lemma_concat_take_step(c, 6);
    lemma_concat_take_step(c, 7);
    lemma_concat_take_step(c, 8);
    lemma_concat_take_step(c, 9);
    lemma_concat_take_step(c, 10);
    lemma_concat_take_step(c, 11);
    lemma_concat_take_step(c, 12);
    lemma_concat_take_step(c, 13);
}

/// Law: the layout of the checksummed bytes of a user command. They are 53
/// bytes; each field is read back, little-endian, at its fixed offset:
/// command number at 0, tick count at 4, pitch, yaw and roll at 8, 12 and
/// 16, forward, side and up move at 20, 24 and 28, buttons at 32, impulse
/// at 36, weapon select and subtype at 37 and 41, random seed at 45, and the
/// mouse deltas at 49 and 51.
#[verifier::spinoff_prover]
pub proof fn lemma_usercmd_layout(cmd: CUserCmd)
    ensures
        usercmd_bytes(cmd).len() == 53,
        le_u32_at(usercmd_bytes(cmd), 0) == cmd.command_number as u32,
        le_u32_at(usercmd_bytes(cmd), 4) == cmd.tick_count as u32,
        le_u32_at(usercmd_bytes(cmd), 8) == cmd.viewangles.pitch,
        le_u32_at(usercmd_bytes(cmd), 12) == cmd.viewangles.yaw,
        le_u32_at(usercmd_bytes(cmd), 16) == cmd.viewangles.roll,
        le_u32_at(usercmd_bytes(cmd), 20) == cmd.forwardmove,
        le_u32_at(usercmd_bytes(cmd), 24) == cmd.sidemove,
        le_u32_at(usercmd_bytes(cmd), 28) == cmd.upmove,
        le_u32_at(usercmd_bytes(cmd), 32) == cmd.buttons as u32,
        usercmd_bytes(cmd)[36] == cmd.impulse,
        le_u32_at(usercmd_bytes(cmd), 37) == cmd.weaponselect as u32,
        le_u32_at(usercmd_bytes(cmd), 41) == cmd.weaponsubtype as u32,
        le_u32_at(usercmd_bytes(cmd), 45) == cmd.random_seed as u32,
        le_u16_at(usercmd_bytes(cmd), 49) == cmd.mousedx,
        le_u16_at(usercmd_bytes(cmd), 51) == cmd.mousedy,
{
    let c = usercmd_chunks(cmd);
    let b = usercmd_bytes(cmd);
    lemma_usercmd_bytes_are_chunks(cmd);
    lemma_usercmd_chunk_offsets(cmd);
    lemma_concat_take_step(c, 14);
    assert(c.take(15) =~= c);
    assert(le_u32_at(b, 0) == cmd.command_number as u32) by {
        lemma_chunk_at(c, 0);
        assert(concat_chunks(c.take(0)).len() == 0);
        lemma_le_u32_roundtrip(cmd.command_number as u32);
    }
    assert(le_u32_at(b, 4) == cmd.tick_count as u32) by {
        lemma_chunk_at(c, 1);
        assert(concat_chunks(c.take(1)).len() == 4);
        lemma_le_u32_roundtrip(cmd.tick_count as u32);
    }
    assert(le_u32_at(b, 8) == cmd.viewangles.pitch) by {
        lemma_chunk_at(c, 2);
        assert(concat_chunks(c.take(2)).len() == 8);
        lemma_le_u32_roundtrip(cmd.viewangles.pitch);
    }
    assert(le_u32_at(b, 12) == cmd.viewangles.yaw) by {
        lemma_chunk_at(c, 3);
        assert(concat_chunks(c.take(3)).len() == 12);
        lemma_le_u32_roundtrip(cmd.viewangles.yaw);
    }
    assert(le_u32_at(b, 16) == cmd.viewangles.roll) by {
        lemma_chunk_at(c, 4);
        assert(concat_chunks(c.take(4)).len() == 16);
        lemma_le_u32_roundtrip(cmd.viewangles.roll);
    }
    assert(le_u32_at(b, 20) == cmd.forwardmove) by {
        lemma_chunk_at(c, 5);
        assert(concat_chunks(c.take(5)).len() == 20);
        lemma_le_u32_roundtrip(cmd.forwardmove);
    }
    assert(le_u32_at(b, 24) == cmd.sidemove) by {
        lemma_chunk_at(c, 6);
        assert(concat_chunks(c.take(6)).len() == 24);
        lemma_le_u32_roundtrip(cmd.sidemove);
    }
    assert(le_u32_at(b, 28) == cmd.upmove) by {
        lemma_chunk_at(c, 7);
        assert(concat_chunks(c.take(7)).len() == 28);
        lemma_le_u32_roundtrip(cmd.upmove);
    }
    assert(le_u32_at(b, 32) == cmd.buttons as u32) by {
        lemma_chunk_at(c, 8);
        assert(concat_chunks(c.take(8)).len() == 32);
        lemma_le_u32_roundtrip(cmd.buttons as u32);
    }
    assert(b[36] == cmd.impulse) by {
        lemma_chunk_at(c, 9);
        assert(concat_chunks(c.take(9)).len() == 36);
    }
    assert(le_u32_at(b, 37) == cmd.weaponselect as u32) by {
        lemma_chunk_at(c, 10);
        assert(concat_chunks(c.take(10)).len() == 37);
        lemma_le_u32_roundtrip(cmd.weaponselect as u32);
    }
    assert(le_u32_at(b, 41) == cmd.weaponsubtype as u32) by {
        lemma_chunk_at(c, 11);
        assert(concat_chunks(c.take(11)).len() == 41);
        lemma_le_u32_roundtrip(cmd.weaponsubtype as u32);
    }
    assert(le_u32_at(b, 45) == cmd.random_seed as u32) by {
        lemma_chunk_at(c, 12);
        assert(concat_chunks(c.take(12)).len() == 45);
        lemma_le_u32_roundtrip(cmd.random_seed as u32);
    }
    assert(le_u16_at(b, 49) == cmd.mousedx) by {
        lemma_chunk_at(c, 13);
        assert(concat_chunks(c.take(13)).len() == 49);
        lemma_le_u16_roundtrip(cmd.mousedx);
    }
    assert(le_u16_at(b, 51) == cmd.mousedy) by {
        lemma_chunk_at(c, 14);
        assert(concat_chunks(c.take(14)).len() == 51);
        lemma_le_u16_roundtrip(cmd.mousedy);
    }
}

/// Recomputes the checksum of the command held in `verified_cmd`.
pub fn verify_usercmd(verified_cmd: &mut CVerifiedUserCmd)
    ensures
        final(verified_cmd).m_cmd == old(verified_cmd).m_cmd,
        final(verified_cmd).m_crc == crc32_ieee(usercmd_bytes(old(verified_cmd).m_cmd)),
{
    let buf = serialize_usercmd(&verified_cmd.m_cmd);
    let checksum: u32 = checksum_ieee(buf.as_slice());
    verified_cmd.m_crc = checksum;
}

/// Pairs a finished command with its checksum, as the server receives it.
pub fn seal_command(cmd: CUserCmd) -> (sealed: CVerifiedUserCmd)
    ensures
        sealed.m_cmd == cmd,
        sealed.m_crc == crc32_ieee(usercmd_bytes(cmd)),
{
    let mut sealed = CVerifiedUserCmd { m_cmd: cmd, m_crc: 0 };
    verify_usercmd(&mut sealed);
    sealed
}

/// The slot of the command ring buffer (of 90 commands) that holds the
/// command with this sequence number: Rust's remainder, negative for a
/// negative sequence number.
pub fn command_slot(sequence_number: i32) -> (slot: i32)
    ensures
        sequence_number >= 0 ==> slot == sequence_number % 90,
        sequence_number < 0 ==> slot == -((-sequence_number) % 90),
        sequence_number >= 0 ==> 0 <= slot < 90,
{
    sequence_number % 90
}

/// How many bytes of `CHLClient::CreateMove` are searched for the load of
/// the input system's address.
pub const CINPUT_SCAN_LEN: usize = 100;

/// The bytes of `mov ecx, dword ptr [imm32]`, the instruction that loads the
/// input system's address.
pub open spec fn cinput_load_opcode() -> Seq<u8> {
    seq![0x8Bu8, 0x0Du8]
}

/// Finds, in the first `CINPUT_SCAN_LEN` bytes of the machine code `code` of
/// `CreateMove`, the first `mov ecx, [imm32]` instruction and returns the
/// offset of its 32-bit address operand (two bytes past the opcode).
pub fn locate_cinput(code: &[u8]) -> (r: Option<usize>)
    requires
        code@.len() >= CINPUT_SCAN_LEN,
    ensures
        match r {
            Some(operand) => operand >= 2 && first_match(
                code@.take(CINPUT_SCAN_LEN as int),
                operand - 2,
                cinput_load_opcode(),
                seq![true, true],
            ),
            None => no_match(
                code@.take(CINPUT_SCAN_LEN as int),
                cinput_load_opcode(),
                seq![true, true],
            ),
        },
{
    let pattern: [u8; 2] = [0x8B, 0x0D];
    let must_match: [bool; 2] = [true, true];
    assert(pattern@ =~= cinput_load_opcode());
    assert(must_match@ =~= seq![true, true]);
    match search_memory(code, CINPUT_SCAN_LEN, &pattern, &must_match) {
        Some(offset) => Some(offset + 2),
        None => None,
    }
}

/// The weapon is the minigun (`CTFMinigun`), whose spin-up state the hook
/// resets every tick.
pub fn is_minigun(class_name: &[u8]) -> (r: bool)
    ensures
        r == (class_name@ == "CTFMinigun".spec_bytes()),
{
    bytes_equal(class_name, "CTFMinigun".as_bytes())
}

/// The bit of the player flags that is set while on the ground.
pub const FL_ONGROUND: i32 = 1;

/// The attack button.
pub const IN_ATTACK: i32 = 1;

/// The jump button.
pub const IN_JUMP: i32 = 2;

/// The command number written into every sent command.
pub const FORCED_COMMAND_NUMBER: i32 = 2076615043;

/// The random seed written into every sent command.
pub const FORCED_RANDOM_SEED: i32 = 39;

/// The buttons after the hook's own changes: jump released while in the
/// air, attack released when no target was found.
pub open spec fn spec_hook_buttons(buttons: i32, flags: i32, has_target: bool) -> i32 {
    let b: i32 = if flags & FL_ONGROUND == 0 {
        buttons & !IN_JUMP
    } else {
        buttons
    };
    if has_target {
        b
    } else {
        b & !IN_ATTACK
    }
}

/// Applies the integer part of the per-tick command rewrite: releases jump
/// while `flags` says the player is in the air, releases attack when
/// `has_target` is false, and writes the fixed command number and random
/// seed. All other fields are left as they are.
pub fn finalize_command(cmd: &mut CUserCmd, flags: i32, has_target: bool)
    ensures
        *final(cmd) == (CUserCmd {
            buttons: spec_hook_buttons(old(cmd).buttons, flags, has_target),
            command_number: FORCED_COMMAND_NUMBER,
            random_seed: FORCED_RANDOM_SEED,
            ..*old(cmd)
        }),
{
    if flags & FL_ONGROUND == 0 {
        cmd.buttons = cmd.buttons & !IN_JUMP;
    }
    if !has_target {
        cmd.buttons = cmd.buttons & !IN_ATTACK;
    }
    cmd.command_number = FORCED_COMMAND_NUMBER;
    cmd.random_seed = FORCED_RANDOM_SEED;
}

/// Law: after the rewrite, jump is never held while in the air, attack is
/// never held without a target, and every other button is as it was.
pub proof fn lemma_hook_buttons(buttons: i32, flags: i32, has_target: bool)
    ensures
        flags & FL_ONGROUND == 0 ==> spec_hook_buttons(buttons, flags, has_target) & IN_JUMP == 0,
        !has_target ==> spec_hook_buttons(buttons, flags, has_target) & IN_ATTACK == 0,
        spec_hook_buttons(buttons, flags, has_target) & !3i32 == buttons & !3i32,
        flags & FL_ONGROUND != 0 ==> spec_hook_buttons(buttons, flags, has_target) & IN_JUMP
            == buttons & IN_JUMP,
        has_target ==> spec_hook_buttons(buttons, flags, has_target) & IN_ATTACK == buttons
            & IN_ATTACK,
{
    let r: i32 = spec_hook_buttons(buttons, flags, has_target);
    let b: i32 = if flags & 1 == 0 { buttons & !2i32 } else { buttons };
    assert(r == if has_target { b } else { b & !1i32 });
    assert((buttons & !2i32) & 2 == 0 && (buttons & !2i32) & !3i32 == buttons & !3i32
        && (buttons & !2i32) & 1 == buttons & 1) by (bit_vector);
    assert((b & !1i32) & 1 == 0 && (b & !1i32) & !3i32 == b & !3i32 && (b & !1i32) & 2 == b
        & 2) by (bit_vector);
}

/// What the hook reads of a player slot to decide its glow.
#[derive(Clone, Copy)]
pub struct GlowEntity {
    pub dormant: bool,
    pub life_state: u8,
    pub team: i32,
}

/// The glow updates for the player slots `1, 2, ..., ents.len()`, where
/// `ents[k]` is the entity in slot `k + 1` (`None` for an empty slot): in
/// slot order, one `(slot, glow)` pair for each slot other than the local
/// player's that holds an entity that is neither dormant nor dead; `glow` is
/// whether the entity is on another team than `my_team`.
pub open spec fn spec_glow_updates(me_idx: i32, my_team: i32, ents: Seq<Option<GlowEntity>>) -> Seq<
    (i32, bool),
>
    decreases ents.len(),
{
    if ents.len() == 0 {
        Seq::empty()
    } else {
        let prev = spec_glow_updates(me_idx, my_team, ents.drop_last());
        let idx: i32 = ents.len() as i32;
        match ents.last() {
            Some(e) => if idx != me_idx && !e.dormant && e.life_state == 0 {
                prev.push((idx, e.team != my_team))
            } else {
                prev
            },
            None => prev,
        }
    }
}

/// Decides which player slots get their glow set, and to what.
pub fn glow_updates(me_idx: i32, my_team: i32, ents: &Vec<Option<GlowEntity>>) -> (r: Vec<
    (i32, bool),
>)
    requires
        ents@.len() < i32::MAX,
    ensures
        r@ == spec_glow_updates(me_idx, my_team, ents@),
{
    let mut r: Vec<(i32, bool)> = Vec::new();
    let mut k: usize = 0;
    while k < ents.len()
        invariant
            k <= ents@.len() < i32::MAX,
            r@ == spec_glow_updates(me_idx, my_team, ents@.take(k as int)),
        decreases ents@.len() - k,
    {
        let idx: i32 = (k + 1) as i32;
        assert(ents@.take(k + 1).drop_last() =~= ents@.take(k as int));
        match ents[k] {
            Some(e) => {
                if idx != me_idx && !e.dormant && e.life_state == 0 {
                    r.push((idx, e.team != my_team));
                }
            },
            None => {},
        }
        k = k + 1;
    }
    assert(ents@.take(k as int) =~= ents@);
    r
}

/// The number of player slots whose glow the hook looks at each tick: slots
/// 1 to 31.
pub const PLAYER_SLOTS: usize = 31;

/// The glow updates of one tick, over the hook's player slots `1..=31`:
/// `ents[k]` is the entity in slot `k + 1`.
pub fn player_glow_updates(me_idx: i32, my_team: i32, ents: &Vec<Option<GlowEntity>>) -> (r: Vec<
    (i32, bool),
>)
    requires
        ents@.len() == PLAYER_SLOTS,
    ensures
        r@ == spec_glow_updates(me_idx, my_team, ents@),
        forall|i: int| 0 <= i < r@.len() ==> 1 <= (#[trigger] r@[i]).0 <= PLAYER_SLOTS,
{
    let r = glow_updates(me_idx, my_team, ents);
    proof {
        lemma_glow_updates_slots(me_idx, my_team, ents@);
        assert forall|i: int| 0 <= i < r@.len() implies 1 <= (#[trigger] r@[i]).0
            <= PLAYER_SLOTS by {
            assert(glow_eligible(me_idx, ents@, r@[i].0 as int));
        }
    }
    r
}

/// The slot `s` (counted from 1) is one whose glow the hook sets: another
/// player's slot holding an entity that is neither dormant nor dead.
pub open spec fn glow_eligible(me_idx: i32, ents: Seq<Option<GlowEntity>>, s: int) -> bool {
    &&& 1 <= s <= ents.len()
    &&& s != me_idx
    &&& ents[s - 1] is Some
    &&& !ents[s - 1]->0.dormant
    &&& ents[s - 1]->0.life_state == 0
}

/// Law: the glow updates are exactly one per eligible slot, in increasing
/// slot order: every update is for an eligible slot (another player's,
/// holding a living, non-dormant entity) and says whether that entity is an
/// enemy, and every eligible slot gets an update.
pub proof fn lemma_glow_updates_slots(me_idx: i32, my_team: i32, ents: Seq<Option<GlowEntity>>)
    requires
        ents.len() < i32::MAX,
    ensures
        forall|i: int|
            0 <= i < spec_glow_updates(me_idx, my_team, ents).len() ==> {
                let (idx, glow) = #[trigger] spec_glow_updates(me_idx, my_team, ents)[i];
                &&& glow_eligible(me_idx, ents, idx as int)
                &&& glow == (ents[idx - 1]->0.team != my_team)
            },
        forall|i: int, j: int|
            0 <= i < j < spec_glow_updates(me_idx, my_team, ents).len() ==> (
            #[trigger] spec_glow_updates(me_idx, my_team, ents)[i]).0 < (
            #[trigger] spec_glow_updates(me_idx, my_team, ents)[j]).0,
        forall|s: int|
            #[trigger] glow_eligible(me_idx, ents, s) ==> exists|i: int|
                0 <= i < spec_glow_updates(me_idx, my_team, ents).len() && (
                #[trigger] spec_glow_updates(me_idx, my_team, ents)[i]) == (
                s as i32,
                ents[s - 1]->0.team != my_team,
            ),
    decreases ents.len(),
{
    if ents.len() > 0 {
        let prefix = ents.drop_last();
        lemma_glow_updates_slots(me_idx, my_team, prefix);
        assert forall|i: int| 0 <= i < prefix.len() implies prefix[i] == ents[i] by {}
        let prev = spec_glow_updates(me_idx, my_team, prefix);
        let cur = spec_glow_updates(me_idx, my_team, ents);
        assert forall|s: int| #[trigger] glow_eligible(me_idx, ents, s) implies exists|i: int|
            0 <= i < cur.len() && (#[trigger] cur[i]) == (s as i32, ents[s - 1]->0.team
                != my_team) by {
            if s < ents.len() {
                assert(prefix[s - 1] == ents[s - 1]);
                assert(glow_eligible(me_idx, prefix, s));
                let i = choose|i: int|
                    0 <= i < prev.len() && (#[trigger] prev[i]) == (s as i32, prefix[s - 1]->0.team
                        != my_team);
                assert(cur[i] == prev[i]);
            } else {
                assert(cur[cur.len() - 1] == (s as i32, ents[s - 1]->0.team != my_team));
            }
        }
    }
}

} // verus!
