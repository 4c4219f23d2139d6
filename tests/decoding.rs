use wow_vanilla_dbc::tbc_tables::spell_missile_motion::{
    SpellMissileMotion, SpellMissileMotionKey, SpellMissileMotionRow,
};
use wow_vanilla_dbc::wrath_tables::ground_effect_doodad::{
    GroundEffectDoodad, GroundEffectDoodadKey, GroundEffectDoodadRow,
};
use wow_vanilla_dbc::wrath_tables::spell_rune_cost::{
    SpellRuneCost, SpellRuneCostKey, SpellRuneCostRow,
};
use wow_vanilla_dbc::{DbcError, DbcTable, InvalidHeaderError};

fn word(b: &[u8], at: usize) -> u32 {
    u32::from_le_bytes([b[at], b[at + 1], b[at + 2], b[at + 3]])
}

fn set_word(b: &mut [u8], at: usize, v: u32) {
    b[at..at + 4].copy_from_slice(&v.to_le_bytes());
}

fn doodad(id: i32, path: &str) -> GroundEffectDoodadRow {
    GroundEffectDoodadRow { id: GroundEffectDoodadKey::new(id), doodadpath: path.to_string(), flags: 0 }
}

fn rune_table() -> SpellRuneCost {
    SpellRuneCost {
        rows: vec![
            SpellRuneCostRow { id: SpellRuneCostKey::new(1), blood: 1, unholy: 2, frost: 3, runic_power: 4 },
            SpellRuneCostRow { id: SpellRuneCostKey::new(2), blood: 5, unholy: 6, frost: 7, runic_power: 8 },
        ],
    }
}

/// A SpellMissileMotion file with one row whose name points at `name_off`.
fn missile_file(name_off: u32, heap: &[u8]) -> Vec<u8> {
    let mut b = Vec::new();
    b.extend_from_slice(b"WDBC");
    for v in [1u32, 5, 20, heap.len() as u32] {
        b.extend_from_slice(&v.to_le_bytes());
    }
    for v in [9u32, name_off, 0, 0, 0] {
        b.extend_from_slice(&v.to_le_bytes());
    }
    b.extend_from_slice(heap);
    b
}

#[test]
fn heap_offsets_of_written_strings() {
    let t = GroundEffectDoodad { rows: vec![doodad(1, "abc"), doodad(2, "")] };
    let b = t.write();
    assert_eq!(word(&b, 20 + 4), 1);
    assert_eq!(word(&b, 20 + 12 + 4), 0);
    assert_eq!(word(&b, 16), 5);
    assert_eq!(&b[20 + 24..], b"\0abc\0");
}

#[test]
fn heap_starts_with_nul_and_empty_strings_use_offset_zero() {
    let t = SpellMissileMotion {
        rows: vec![SpellMissileMotionRow {
            id: SpellMissileMotionKey::new(1),
            name: String::new(),
            script_body: "b".to_string(),
            flags: 0,
            missile_count: 0,
        }],
    };
    let b = t.write();
    assert_eq!(b[20 + 20], 0);
    assert_eq!(word(&b, 24), 0);
    assert_eq!(word(&b, 28), 1);
    let back = SpellMissileMotion::read(&b).unwrap();
    assert_eq!(back.rows[0].name, "");
}

#[test]
fn identical_strings_are_not_shared() {
    let t = GroundEffectDoodad { rows: vec![doodad(1, "same"), doodad(2, "same")] };
    let b = t.write();
    assert_eq!(word(&b, 24), 1);
    assert_eq!(word(&b, 36), 6);
    assert_eq!(&b[20 + 24..], b"\0same\0same\0");
}

#[test]
fn bad_magic() {
    let mut b = rune_table().write();
    b[0] = b'X';
    let expected = u32::from_le_bytes([b'X', b'D', b'B', b'C']);
    assert_eq!(
        SpellRuneCost::read(&b),
        Err(DbcError::InvalidHeader(InvalidHeaderError::MagicValue { actual: expected }))
    );
}

#[test]
fn record_size_mismatch() {
    for actual in [24u32, 19, 0, 16, u32::MAX] {
        let mut b = rune_table().write();
        set_word(&mut b, 12, actual);
        assert_eq!(
            SpellRuneCost::read(&b),
            Err(DbcError::InvalidHeader(InvalidHeaderError::RecordSize { expected: 20, actual }))
        );
    }
}

#[test]
fn record_size_checked_before_rows() {
    // The rows are garbage and the heap is missing, yet the header decides.
    let mut b = missile_file(77, &[]);
    set_word(&mut b, 12, 21);
    assert_eq!(
        SpellMissileMotion::read(&b),
        Err(DbcError::InvalidHeader(InvalidHeaderError::RecordSize { expected: 20, actual: 21 }))
    );
}

#[test]
fn field_count_mismatch() {
    let mut b = rune_table().write();
    set_word(&mut b, 8, 6);
    assert_eq!(
        SpellRuneCost::read(&b),
        Err(DbcError::InvalidHeader(InvalidHeaderError::FieldCount { expected: 5, actual: 6 }))
    );
}

#[test]
fn truncated_header() {
    let b = rune_table().write();
    assert_eq!(SpellRuneCost::read(&b[..19]), Err(DbcError::Truncated));
    assert_eq!(SpellRuneCost::read(&[]), Err(DbcError::Truncated));
}

#[test]
fn truncated_rows_or_heap() {
    let b = rune_table().write();
    assert_eq!(b.len(), 20 + 40 + 1);
    assert_eq!(SpellRuneCost::read(&b[..b.len() - 1]), Err(DbcError::Truncated));
    assert_eq!(SpellRuneCost::read(&b[..40]), Err(DbcError::Truncated));
    let mut more = b.clone();
    set_word(&mut more, 4, 3);
    assert_eq!(SpellRuneCost::read(&more), Err(DbcError::Truncated));
}

#[test]
fn trailing_bytes_are_ignored() {
    let mut b = rune_table().write();
    b.extend_from_slice(&[1, 2, 3]);
    assert_eq!(SpellRuneCost::read(&b).unwrap(), rune_table());
}

#[test]
fn string_offsets_resolve() {
    let b = missile_file(3, b"\0x\0abc\0");
    let t = SpellMissileMotion::read(&b).unwrap();
    assert_eq!(t.rows[0].name, "abc");
    assert_eq!(t.rows[0].script_body, "");
    assert_eq!(t.rows[0].id.id, 9);
    let b = missile_file(2, b"\0x\0abc\0");
    assert_eq!(SpellMissileMotion::read(&b).unwrap().rows[0].name, "");
}

#[test]
fn string_offset_past_heap() {
    let b = missile_file(7, b"\0abc\0");
    assert_eq!(SpellMissileMotion::read(&b), Err(DbcError::Truncated));
}

#[test]
fn string_without_terminator() {
    let b = missile_file(1, b"\0abc");
    assert_eq!(SpellMissileMotion::read(&b), Err(DbcError::Truncated));
}

#[test]
fn string_not_utf8() {
    let b = missile_file(1, &[0, 0x61, 0xFF, 0xFE, 0]);
    assert_eq!(SpellMissileMotion::read(&b), Err(DbcError::InvalidString));
}

#[test]
fn string_utf8_multibyte() {
    let mut heap = vec![0u8];
    heap.extend_from_slice("Grüße".as_bytes());
    heap.push(0);
    let b = missile_file(1, &heap);
    assert_eq!(SpellMissileMotion::read(&b).unwrap().rows[0].name, "Grüße");
}

#[test]
fn offset_zero_is_empty_even_with_empty_heap() {
    let b = missile_file(0, &[]);
    let t = SpellMissileMotion::read(&b).unwrap();
    assert_eq!(t.rows[0].name, "");
}

#[test]
fn signed_values_keep_their_bits() {
    let mut b = rune_table().write();
    set_word(&mut b, 24, 0xFFFF_FFFF);
    let t = SpellRuneCost::read(&b).unwrap();
    assert_eq!(t.rows[0].blood, -1);
}

#[test]
fn nul_inside_a_string_ends_it() {
    let t = GroundEffectDoodad { rows: vec![doodad(1, "a\0b"), doodad(2, "c")] };
    let b = t.write();
    assert_eq!(&b[20 + 24..], b"\0a\0b\0c\0");
    let back = GroundEffectDoodad::read(&b).unwrap();
    assert_eq!(back.rows[0].doodadpath, "a");
    assert_eq!(back.rows[1].doodadpath, "c");
}

#[test]
fn small_tables_fit_the_format() {
    assert!(rune_table().fits_format());
    assert!(GroundEffectDoodad { rows: vec![] }.fits_format());
}
