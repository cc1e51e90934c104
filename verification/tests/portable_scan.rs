use group_scan::bitmask::BitMask;
use group_scan::control::BYTES;
use group_scan::control::DELETED;
use group_scan::control::EMPTY;
use group_scan::control::WIDTH;
use group_scan::portable::Group;

fn scenario_words() -> Vec<u16> {
    let mut v: Vec<u16> = vec![
        EMPTY, DELETED, 0x0003, EMPTY, 0x7fff, DELETED,
    ];
    while v.len() < 16 {
        v.push(EMPTY);
    }
    v
}

fn lanes_of(g: Group) -> Vec<u16> {
    let mut out: Vec<u16> = vec![0u16; 16];
    g.store_aligned(&mut out);
    out
}

#[test]
fn concrete_scenario() {
    let words = scenario_words();
    let g = Group::load(&words);
    assert_eq!(g.match_full().0, 0x0014);
    assert_eq!(g.match_byte(0x0003).0, 0x0004);
    assert_eq!(g.match_empty_or_deleted().0, 0xffeb);
}

#[test]
fn static_empty_is_all_empty() {
    let words = Group::static_empty();
    assert_eq!(words.len(), WIDTH);
    assert_eq!(WIDTH * 2, BYTES);
    for w in words.iter() {
        assert_eq!(*w, EMPTY);
    }
    let g = Group::load_aligned(&words);
    assert_eq!(g.match_empty().0, 0xffff);
    assert_eq!(g.match_full().0, 0x0000);
}

#[test]
fn store_load_round_trip() {
    let words = scenario_words();
    let g = Group::load(&words);
    let mut buf: Vec<u16> = vec![0xaaaa; 20];
    g.store_aligned(&mut buf);
    for i in 0..16 {
        assert_eq!(buf[i], words[i]);
    }
    for i in 16..20 {
        assert_eq!(buf[i], 0xaaaa);
    }
    let reloaded = Group::load(&buf);
    assert_eq!(lanes_of(reloaded), words);
    let realigned = Group::load_aligned(&buf);
    assert_eq!(lanes_of(realigned), words);
}

#[test]
fn unaligned_window_load() {
    let mut arr: Vec<u16> = Vec::new();
    for i in 0..24u16 {
        arr.push(i);
    }
    let g = Group::load(&arr[5..]);
    let lanes = lanes_of(g);
    for i in 0..16u16 {
        assert_eq!(lanes[i as usize], i + 5);
    }
}

#[test]
fn match_byte_probes_exact_words() {
    let words = vec![
        0x0000, 0x0001, 0x7fff, 0x1234, 0x0001, EMPTY, DELETED, 0x0001, 0x4321, 0x0000, 0x5a5a,
        0x0001, 0x2b2b, 0x7ffe, 0x0f0f, 0x0001,
    ];
    let g = Group::load(&words);
    assert_eq!(g.match_byte(0x0001).0, 0b1000_1000_1001_0010);
    assert_eq!(g.match_byte(0x0000).0, 0b0000_0010_0000_0001);
    assert_eq!(g.match_byte(0x7fff).0, 0b0000_0000_0000_0100);
    assert_eq!(g.match_byte(0x6666).0, 0x0000);
}

#[test]
fn full_iff_high_bit_clear() {
    // Occupied words over the whole fragment range, and words that are
    // neither EMPTY nor DELETED but have the high bit set.
    let words = vec![
        0x0000, 0x0001, 0x3fff, 0x7fff, 0x7ffe, 0x5555, 0x2aaa, 0x0100, 0x8001, 0xfffe, 0x8000,
        0xffff, 0xbeef, 0x8080, 0x7f7f, 0x00ff,
    ];
    let g = Group::load(&words);
    let full = g.match_full().0;
    let specials = g.match_empty_or_deleted().0;
    let empties = g.match_empty().0;
    for i in 0..16 {
        let bit = 1u16 << i;
        assert_eq!(full & bit != 0, words[i] & 0x8000 == 0);
        assert_eq!(specials & bit != 0, words[i] & 0x8000 != 0);
        if empties & bit != 0 {
            assert!(specials & bit != 0);
        }
    }
    // The two masks partition the sixteen lanes.
    assert_eq!(full & specials, 0x0000);
    assert_eq!(full | specials, 0xffff);
}

#[test]
fn transform_maps_each_class() {
    let words = scenario_words();
    let g = Group::load(&words);
    let t = g.convert_special_to_empty_and_full_to_deleted();
    let lanes = lanes_of(t);
    let mut expected: Vec<u16> = vec![
        EMPTY, EMPTY, DELETED, EMPTY, DELETED, EMPTY,
    ];
    while expected.len() < 16 {
        expected.push(EMPTY);
    }
    assert_eq!(lanes, expected);
}

#[test]
fn transform_ignores_fragment_bits() {
    let words = vec![
        0x0000, 0x0001, 0x7fff, 0x1234, 0x4000, 0x2000, 0x1000, 0x0800, 0x0400, 0x0200, 0x0100,
        0x0080, 0x0040, 0x0020, 0x0010, 0x0008,
    ];
    let g = Group::load(&words);
    let lanes = lanes_of(g.convert_special_to_empty_and_full_to_deleted());
    for w in lanes.iter() {
        assert_eq!(*w, DELETED);
    }
}

#[test]
fn invert_flips_significant_bits() {
    assert_eq!(BitMask(0x0014).invert().0, 0xffeb);
    assert_eq!(BitMask(0x0000).invert().0, 0xffff);
    assert_eq!(BitMask(0xffff).invert().0, 0x0000);
    assert_eq!(BitMask(0x5555).invert().0, 0xaaaa);
}
