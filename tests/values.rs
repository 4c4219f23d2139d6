use wow_vanilla_dbc::header::{parse_header, DbcHeader, HEADER_SIZE, MAGIC};
use wow_vanilla_dbc::tables::faction::{ReputationFlags, ReputationRaceMask};
use wow_vanilla_dbc::{Gender, InvalidEnumError, InvalidHeaderError, LocalizedString, SizeClass};

#[test]
fn gender_rejects_unknown_value() {
    let e = Gender::try_from(5i32).unwrap_err();
    assert_eq!(e, InvalidEnumError::new("Gender", 5));
    assert_eq!(e.enum_name, "Gender");
    assert_eq!(e.value, 5);
}

#[test]
fn gender_values() {
    assert_eq!(Gender::try_from(0i32), Ok(Gender::Male));
    assert_eq!(Gender::try_from(1i32), Ok(Gender::Female));
    assert!(Gender::try_from(-1i32).is_err());
    assert_eq!(Gender::try_from(256i32).unwrap_err().value, 256);
    assert_eq!(Gender::try_from(1i8), Ok(Gender::Female));
    assert_eq!(Gender::try_from(-3i8).unwrap_err(), InvalidEnumError::new("Gender", -3));
    assert_eq!(Gender::Female.as_int(), 1);
    assert_eq!(Gender::default(), Gender::Male);
}

#[test]
fn size_class_values() {
    assert_eq!(SizeClass::try_from(-1), Ok(SizeClass::NoSize));
    assert_eq!(SizeClass::try_from(4), Ok(SizeClass::Colossal));
    assert_eq!(SizeClass::try_from(2), Ok(SizeClass::Large));
    assert_eq!(SizeClass::try_from(5).unwrap_err(), InvalidEnumError::new("SizeClass", 5));
    assert_eq!(SizeClass::try_from(-2).unwrap_err().value, -2);
    assert_eq!(SizeClass::Giant.as_int(), 3);
    assert_eq!(SizeClass::NoSize.as_int(), -1);
    assert_eq!(SizeClass::default(), SizeClass::NoSize);
}

#[test]
fn header_write_and_parse() {
    let h = DbcHeader { record_count: 2, field_count: 5, record_size: 20, string_block_size: 9 };
    let b = h.write_header();
    assert_eq!(b.len(), HEADER_SIZE);
    assert_eq!(&b[..4], b"WDBC");
    assert_eq!(u32::from_le_bytes([b[0], b[1], b[2], b[3]]), MAGIC);
    assert_eq!(&b[4..8], &[2, 0, 0, 0]);
    assert_eq!(&b[16..20], &[9, 0, 0, 0]);
    assert_eq!(parse_header(&b), Ok(h));
}

#[test]
fn header_bad_magic() {
    let mut b = DbcHeader { record_count: 0, field_count: 0, record_size: 0, string_block_size: 0 }.write_header();
    b[3] = b'D';
    assert_eq!(
        parse_header(&b),
        Err(InvalidHeaderError::MagicValue { actual: u32::from_le_bytes(*b"WDBD") })
    );
}

#[test]
fn localized_string_order() {
    let l = LocalizedString::new(
        "a".to_string(),
        "b".to_string(),
        "c".to_string(),
        "d".to_string(),
        "e".to_string(),
        "f".to_string(),
        "g".to_string(),
        "h".to_string(),
        9,
    );
    let s: Vec<&str> = l.strings().iter().map(|s| s.as_str()).collect();
    assert_eq!(s, vec!["a", "b", "c", "d", "e", "f", "g", "h"]);
    assert_eq!(l.flags, 9);
}

#[test]
fn reputation_wrappers() {
    assert_eq!(ReputationRaceMask::new(-3).as_int(), -3);
    assert_eq!(ReputationFlags::new(12).as_int(), 12);
    assert_eq!(ReputationFlags::default().as_int(), 0);
}
