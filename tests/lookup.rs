use wow_vanilla_dbc::tables::unit_blood_levels::{
    UnitBloodLevels, UnitBloodLevelsKey, UnitBloodLevelsRow,
};
use wow_vanilla_dbc::wrath_tables::ground_effect_doodad::{
    GroundEffectDoodad, GroundEffectDoodadKey, GroundEffectDoodadRow,
};
use wow_vanilla_dbc::{DbcTable, Indexable};

fn doodad(id: i32, path: &str) -> GroundEffectDoodadRow {
    GroundEffectDoodadRow { id: GroundEffectDoodadKey::new(id), doodadpath: path.to_string(), flags: 0 }
}

#[test]
fn get_returns_first_of_duplicate_keys() {
    let t = GroundEffectDoodad { rows: vec![doodad(7, "first"), doodad(7, "second")] };
    let row = t.get(&GroundEffectDoodadKey::new(7)).unwrap();
    assert_eq!(row.doodadpath, "first");
}

#[test]
fn get_missing_key() {
    let t = GroundEffectDoodad { rows: vec![doodad(7, "first"), doodad(3, "second")] };
    assert!(t.get(&GroundEffectDoodadKey::new(8)).is_none());
    assert_eq!(t.get(&GroundEffectDoodadKey::new(3)).unwrap().doodadpath, "second");
    let empty = GroundEffectDoodad { rows: vec![] };
    assert!(empty.get(&GroundEffectDoodadKey::new(7)).is_none());
}

#[test]
fn get_mut_changes_first_match_only() {
    let mut t = GroundEffectDoodad { rows: vec![doodad(1, "a"), doodad(7, "first"), doodad(7, "second")] };
    t.get_mut(&GroundEffectDoodadKey::new(7)).unwrap().flags = 42;
    assert_eq!(t.rows()[0].flags, 0);
    assert_eq!(t.rows()[1].flags, 42);
    assert_eq!(t.rows()[2].flags, 0);
    assert!(t.get_mut(&GroundEffectDoodadKey::new(9)).is_none());
}

#[test]
fn get_with_unsigned_keys() {
    let t = UnitBloodLevels {
        rows: vec![
            UnitBloodLevelsRow { id: UnitBloodLevelsKey::new(u32::MAX), violence_level: [1, 2, 3] },
            UnitBloodLevelsRow { id: UnitBloodLevelsKey::new(0), violence_level: [4, 5, 6] },
        ],
    };
    assert_eq!(t.get(&UnitBloodLevelsKey::new(u32::MAX)).unwrap().violence_level, [1, 2, 3]);
    assert_eq!(t.get(&UnitBloodLevelsKey::new(0)).unwrap().violence_level, [4, 5, 6]);
}
