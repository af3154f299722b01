use tfcore::gui::{encode_text, Color, TEXT_BUFFER_LEN};
use tfcore::interfaces::{interface_from_factory_result, Interfaces};
use tfcore::offsets::{ptr_offset, Offsets};
use tfcore::vmthook::{VMTHooker, VMT_MAX_SIZE};

#[test]
fn offsets_load_sets_current_build() {
    let mut o = Offsets { m_vecViewOffset: 0, m_iTeamNum: 0, m_lifeState: 0 };
    o.load();
    assert_eq!(o.m_vecViewOffset, 0xFC);
    assert_eq!(o.m_iTeamNum, 0xB0);
    assert_eq!(o.m_lifeState, 0xA5);
}

#[test]
fn ptr_offset_adds() {
    assert_eq!(ptr_offset(0x1000, 0xB0), 0x10B0);
    assert_eq!(ptr_offset(0, 0), 0);
}

#[test]
fn hooking_changes_only_the_patched_entry() {
    let table: Vec<usize> = (0..VMT_MAX_SIZE).map(|i| 0x1000 + i).collect();
    let mut h = VMTHooker::new(&table);
    assert_eq!(h.patched_table(), &table[..]);
    h.hook(21, 0xBEEF);
    assert_eq!(h.patched_table()[21], 0xBEEF);
    assert_eq!(h.patched_table()[20], 0x1000 + 20);
    assert_eq!(h.get_orig_method(21), 0x1000 + 21);
    assert_eq!(h.get_orig_method(0), 0x1000);
    assert_eq!(h.get_orig_method(511), 0x1000 + 511);
    assert_eq!(h.get_orig_method(512), 0);
}

#[test]
fn factory_results() {
    assert_eq!(interface_from_factory_result(0, 0x1234), Some(0x1234));
    assert_eq!(interface_from_factory_result(1, 0x1234), None);
    assert_eq!(interface_from_factory_result(0, 0), None);
    let i = Interfaces::empty();
    assert_eq!(i.engine, 0);
    assert_eq!(i.movehelper, 0);
}

#[test]
fn ascii_text_is_encoded() {
    let b = encode_text("Hi");
    assert_eq!(b.len, 2);
    assert_eq!(b.units.len(), TEXT_BUFFER_LEN);
    assert_eq!(&b.units[0..3], &[72, 105, 0]);
    assert!(b.units[2..].iter().all(|&u| u == 0));
}

#[test]
fn astral_characters_become_surrogate_pairs() {
    let b = encode_text("a\u{1F600}é");
    assert_eq!(b.len, 4);
    assert_eq!(&b.units[0..4], &[0x61, 0xD83D, 0xDE00, 0xE9]);
    let expected: Vec<u16> = "a\u{1F600}é".encode_utf16().collect();
    assert_eq!(&b.units[0..4], &expected[..]);
}

#[test]
fn long_text_is_cut_at_the_buffer() {
    let text = "x".repeat(600);
    let b = encode_text(&text);
    assert_eq!(b.len, 512);
    assert!(b.units.iter().all(|&u| u == 'x' as u16));
    let split = format!("{}{}", "y".repeat(511), "\u{1F600}");
    let s = encode_text(&split);
    assert_eq!(s.len, 512);
    assert_eq!(s.units[511], 0xD83D);
    assert_eq!(encode_text("").len, 0);
}

#[test]
fn colour_holds_channels() {
    let c = Color { r: 2, g: 255, b: 2, a: 255 };
    assert_eq!((c.r, c.g, c.b, c.a), (2, 255, 2, 255));
}

#[test]
fn originals_survive_a_sequence_of_hooks() {
    let table: Vec<usize> = (0..VMT_MAX_SIZE).map(|i| 0x2000 + i).collect();
    let mut h = VMTHooker::new(&table);
    h.hook(0, 1);
    h.hook(8, 2);
    h.hook(0, 3);
    h.hook(511, 4);
    for i in 0..VMT_MAX_SIZE {
        assert_eq!(h.get_orig_method(i), 0x2000 + i);
    }
    assert_eq!(h.get_orig_method(VMT_MAX_SIZE + 7), 0);
    assert_eq!(h.patched_table()[0], 3);
    assert_eq!(h.patched_table()[8], 2);
    assert_eq!(h.patched_table()[511], 4);
    assert_eq!(h.patched_table()[9], 0x2009);
}
