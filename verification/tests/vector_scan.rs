use group_scan::control::DELETED;
use group_scan::control::EMPTY;
use group_scan::control::WIDTH;
use group_scan::simd::Group;

fn scenario_words() -> Vec<u16> {
    let mut v: Vec<u16> = vec![
        EMPTY, DELETED, 0x0003, EMPTY, 0x7fff, DELETED,
    ];
    while v.len() < 16 {
        v.push(EMPTY);
    }
    v
}

fn lanes_of(g: Group) -> Vec<u16> {
    let mut out: Vec<u16> = vec![0u16; 16];
    g.store_aligned(&mut out);
    out
}

#[test]
fn vector_concrete_scenario() {
    let words = scenario_words();
    let g = Group::load(&words);
    assert_eq!(g.match_full().0, 0x0014);
    assert_eq!(g.match_byte(0x0003).0, 0x0004);
    assert_eq!(g.match_empty_or_deleted().0, 0xffeb);
}

#[test]
fn vector_static_empty_is_all_empty() {
    let words = Group::static_empty();
    assert_eq!(words.len(), WIDTH);
    for w in words.iter() {
        assert_eq!(*w, EMPTY);
    }
    let g = Group::load_aligned(&words);
    assert_eq!(g.match_empty().0, 0xffff);
    assert_eq!(g.match_full().0, 0x0000);
}

#[test]
fn vector_store_load_round_trip() {
    let words = scenario_words();
    let g = Group::load(&words);
    let mut buf: Vec<u16> = vec![0x1111; 18];
    g.store_aligned(&mut buf);
    for i in 0..16 {
        assert_eq!(buf[i], words[i]);
    }
    assert_eq!(buf[16], 0x1111);
    assert_eq!(buf[17], 0x1111);
    let reloaded = Group::load_aligned(&buf);
    assert_eq!(lanes_of(reloaded), words);
}

#[test]
fn vector_full_iff_high_bit_clear() {
    let words = vec![
        0x0000, 0x0001, 0x3fff, 0x7fff, 0x7ffe, 0x5555, 0x2aaa, 0x0100, 0x8001, 0xfffe, 0x8000,
        0xffff, 0xbeef, 0x8080, 0x7f7f, 0x00ff,
    ];
    let g = Group::load(&words);
    let full = g.match_full().0;
    let specials = g.match_empty_or_deleted().0;
    for i in 0..16 {
        let bit = 1u16 << i;
        assert_eq!(full & bit != 0, words[i] & 0x8000 == 0);
        assert_eq!(specials & bit != 0, words[i] & 0x8000 != 0);
    }
    assert_eq!(full & specials, 0x0000);
    assert_eq!(full | specials, 0xffff);
}

#[test]
fn vector_transform_maps_each_class() {
    let words = scenario_words();
    let g = Group::load(&words);
    let lanes = lanes_of(g.convert_special_to_empty_and_full_to_deleted());
    let mut expected: Vec<u16> = vec![
        EMPTY, EMPTY, DELETED, EMPTY, DELETED, EMPTY,
    ];
    while expected.len() < 16 {
        expected.push(EMPTY);
    }
    assert_eq!(lanes, expected);
}
