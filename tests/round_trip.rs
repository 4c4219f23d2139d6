use wow_vanilla_dbc::tables::faction::{
    Faction, FactionKey, FactionRow, ReputationFlags, ReputationRaceMask,
};
use wow_vanilla_dbc::tables::unit_blood_levels::{
    UnitBloodLevels, UnitBloodLevelsKey, UnitBloodLevelsRow,
};
use wow_vanilla_dbc::tbc_tables::chat_channels::{ChatChannels, ChatChannelsKey, ChatChannelsRow};
use wow_vanilla_dbc::tbc_tables::mail_template::{MailTemplate, MailTemplateKey, MailTemplateRow};
use wow_vanilla_dbc::tbc_tables::spell_missile_motion::{
    SpellMissileMotion, SpellMissileMotionKey, SpellMissileMotionRow,
};
use wow_vanilla_dbc::tbc_tables::talent::{SpellKey, Talent, TalentKey, TalentRow};
use wow_vanilla_dbc::wrath_tables::achievement_criteria::{
    AchievementKey, Achievement_Criteria, Achievement_CriteriaKey, Achievement_CriteriaRow,
};
use wow_vanilla_dbc::wrath_tables::area_group::{AreaGroup, AreaGroupKey, AreaGroupRow};
use wow_vanilla_dbc::wrath_tables::gem_properties::{
    GemProperties, GemPropertiesKey, GemPropertiesRow, SpellItemEnchantmentKey,
};
use wow_vanilla_dbc::wrath_tables::ground_effect_doodad::{
    GroundEffectDoodad, GroundEffectDoodadKey, GroundEffectDoodadRow,
};
use wow_vanilla_dbc::wrath_tables::quest_faction_reward::{
    QuestFactionReward, QuestFactionRewardKey, QuestFactionRewardRow,
};
use wow_vanilla_dbc::wrath_tables::spell_difficulty::{
    SpellDifficulty, SpellDifficultyKey, SpellDifficultyRow,
};
use wow_vanilla_dbc::wrath_tables::spell_rune_cost::{
    SpellRuneCost, SpellRuneCostKey, SpellRuneCostRow,
};
use wow_vanilla_dbc::{DbcTable, LocalizedString};

fn loc(en: &str, de: &str, flags: u32) -> LocalizedString {
    LocalizedString::new(
        en.to_string(),
        String::new(),
        String::new(),
        de.to_string(),
        String::new(),
        String::new(),
        String::new(),
        String::new(),
        flags,
    )
}

fn faction_row(id: u32, name: &str) -> FactionRow {
    FactionRow {
        id: FactionKey::new(id),
        reputation_index: 3,
        reputation_race_mask: [
            ReputationRaceMask::new(1),
            ReputationRaceMask::new(-2),
            ReputationRaceMask::new(0),
            ReputationRaceMask::new(i32::MIN),
        ],
        reputation_class_mask: [1, 2, 3, u32::MAX],
        reputation_base: [0, 100, 200, 300],
        reputation_flags: [
            ReputationFlags::new(0),
            ReputationFlags::new(16),
            ReputationFlags::new(-1),
            ReputationFlags::new(7),
        ],
        parent_faction: FactionKey::new(67),
        name: loc(name, "Name", 0x00FF_FFFE),
        description: loc("", "Beschreibung", 0),
    }
}

#[test]
fn faction_round_trip() {
    let t = Faction { rows: vec![faction_row(1, "Horde"), faction_row(2, "")] };
    let bytes = t.write();
    assert_eq!(bytes.len(), 20 + 2 * 148 + 1 + "Horde\0Name\0Beschreibung\0".len() + "Name\0Beschreibung\0".len());
    let back = Faction::read(&bytes).unwrap();
    assert_eq!(back, t);
}

#[test]
fn faction_header_counts() {
    let t = Faction { rows: vec![faction_row(1, "Horde")] };
    let bytes = t.write();
    assert_eq!(&bytes[0..4], b"WDBC");
    assert_eq!(u32::from_le_bytes([bytes[4], bytes[5], bytes[6], bytes[7]]), 1);
    assert_eq!(u32::from_le_bytes([bytes[8], bytes[9], bytes[10], bytes[11]]), 37);
    assert_eq!(u32::from_le_bytes([bytes[12], bytes[13], bytes[14], bytes[15]]), 148);
}

#[test]
fn empty_table_round_trip() {
    let t = Faction { rows: vec![] };
    let bytes = t.write();
    assert_eq!(bytes.len(), 21);
    assert_eq!(bytes[20], 0);
    assert_eq!(u32::from_le_bytes([bytes[16], bytes[17], bytes[18], bytes[19]]), 1);
    assert_eq!(Faction::read(&bytes).unwrap(), t);
}

#[test]
fn unit_blood_levels_round_trip() {
    let t = UnitBloodLevels {
        rows: vec![
            UnitBloodLevelsRow { id: UnitBloodLevelsKey::new(0), violence_level: [0, 1, 2] },
            UnitBloodLevelsRow { id: UnitBloodLevelsKey::new(u32::MAX), violence_level: [-1, i32::MAX, i32::MIN] },
        ],
    };
    let bytes = t.write();
    assert_eq!(bytes.len(), 20 + 2 * 16 + 1);
    assert_eq!(UnitBloodLevels::read(&bytes).unwrap(), t);
}

#[test]
fn chat_channels_round_trip() {
    let t = ChatChannels {
        rows: vec![ChatChannelsRow {
            id: ChatChannelsKey::new(1),
            flags: 3,
            faction_group: -5,
            name_lang: loc("General - %s", "Allgemein - %s", 16712190),
            shortcut_lang: loc("General", "Allgemein", 16712190),
        }],
    };
    let bytes = t.write();
    assert_eq!(ChatChannels::read(&bytes).unwrap(), t);
}

#[test]
fn mail_template_round_trip() {
    let t = MailTemplate {
        rows: vec![MailTemplateRow {
            id: MailTemplateKey::new(12),
            subject_lang: loc("Hello", "", 0),
            body_lang: loc("Line one\nLine two", "Zeile", 5),
        }],
    };
    let bytes = t.write();
    assert_eq!(MailTemplate::read(&bytes).unwrap(), t);
}

#[test]
fn spell_missile_motion_round_trip() {
    let t = SpellMissileMotion {
        rows: vec![
            SpellMissileMotionRow {
                id: SpellMissileMotionKey::new(4),
                name: "Spiral".to_string(),
                script_body: "x = sin(t)".to_string(),
                flags: 1,
                missile_count: 3,
            },
            SpellMissileMotionRow {
                id: SpellMissileMotionKey::new(5),
                name: String::new(),
                script_body: "Ünïcødé ✓".to_string(),
                flags: 0,
                missile_count: -1,
            },
        ],
    };
    let bytes = t.write();
    assert_eq!(SpellMissileMotion::read(&bytes).unwrap(), t);
}

#[test]
fn talent_round_trip() {
    let t = Talent {
        rows: vec![TalentRow {
            id: TalentKey::new(100),
            tab_id: 1,
            tier_id: 2,
            column_index: 3,
            spell_rank: [1, 2, 3, 4, 5, 6, 7, 8, 9],
            prereq_talent: [10, 11, 12],
            prereq_rank: [0, -1, 2],
            flags: 8,
            required_spell_id: SpellKey::new(12345),
        }],
    };
    let bytes = t.write();
    assert_eq!(bytes.len(), 20 + 84 + 1);
    assert_eq!(Talent::read(&bytes).unwrap(), t);
}

#[test]
fn achievement_criteria_round_trip() {
    let t = Achievement_Criteria {
        rows: vec![Achievement_CriteriaRow {
            id: Achievement_CriteriaKey::new(1),
            achievement_id: AchievementKey::new(2),
            ty: 3,
            asset_id: 4,
            quantity: 5,
            start_event: 6,
            start_asset: 7,
            fail_event: 8,
            fail_asset: 9,
            description_lang: loc("Kill ten rats", "", 1),
            flags: 10,
            timer_start_event: 11,
            timer_asset_id: 12,
            timer_time: 13,
            ui_order: 14,
        }],
    };
    let bytes = t.write();
    assert_eq!(bytes.len(), 20 + 92 + 1 + "Kill ten rats\0".len());
    assert_eq!(Achievement_Criteria::read(&bytes).unwrap(), t);
}

#[test]
fn area_group_round_trip() {
    let t = AreaGroup {
        rows: vec![AreaGroupRow {
            id: AreaGroupKey::new(1),
            area_id: [1, 2, 3, 4, 5, 6],
            next_area_id: AreaGroupKey::new(2),
        }],
    };
    let bytes = t.write();
    assert_eq!(AreaGroup::read(&bytes).unwrap(), t);
}

#[test]
fn gem_properties_round_trip() {
    let t = GemProperties {
        rows: vec![GemPropertiesRow {
            id: GemPropertiesKey::new(1),
            enchant_id: SpellItemEnchantmentKey::new(2),
            maxcount_inv: 3,
            maxcount_item: 4,
            ty: 5,
        }],
    };
    let bytes = t.write();
    assert_eq!(GemProperties::read(&bytes).unwrap(), t);
}

#[test]
fn ground_effect_doodad_round_trip() {
    let t = GroundEffectDoodad {
        rows: vec![GroundEffectDoodadRow {
            id: GroundEffectDoodadKey::new(1),
            doodadpath: "World\\Doodad.mdx".to_string(),
            flags: 2,
        }],
    };
    let bytes = t.write();
    assert_eq!(GroundEffectDoodad::read(&bytes).unwrap(), t);
}

#[test]
fn quest_faction_reward_round_trip() {
    let t = QuestFactionReward {
        rows: vec![QuestFactionRewardRow {
            id: QuestFactionRewardKey::new(1),
            difficulty: [0, 10, 25, 75, 150, 250, 350, 500, 1000, 5],
        }],
    };
    let bytes = t.write();
    assert_eq!(QuestFactionReward::read(&bytes).unwrap(), t);
}

#[test]
fn spell_difficulty_round_trip() {
    let t = SpellDifficulty {
        rows: vec![SpellDifficultyRow {
            id: SpellDifficultyKey::new(1),
            difficulty_spell_id: [1, 2, 3, 4],
        }],
    };
    let bytes = t.write();
    assert_eq!(SpellDifficulty::read(&bytes).unwrap(), t);
}

#[test]
fn spell_rune_cost_round_trip() {
    let t = SpellRuneCost {
        rows: vec![SpellRuneCostRow {
            id: SpellRuneCostKey::new(1),
            blood: 1,
            unholy: 0,
            frost: 2,
            runic_power: -10,
        }],
    };
    let bytes = t.write();
    assert_eq!(SpellRuneCost::read(&bytes).unwrap(), t);
}

#[test]
fn rows_mut_changes_are_written() {
    let mut t = SpellRuneCost {
        rows: vec![SpellRuneCostRow { id: SpellRuneCostKey::new(1), blood: 1, unholy: 0, frost: 2, runic_power: 3 }],
    };
    t.rows_mut()[0].frost = 9;
    let back = SpellRuneCost::read(&t.write()).unwrap();
    assert_eq!(back.rows()[0].frost, 9);
}

#[test]
fn filenames() {
    assert_eq!(Faction::filename(), "Faction.dbc");
    assert_eq!(UnitBloodLevels::filename(), "UnitBloodLevels.dbc");
    assert_eq!(Achievement_Criteria::filename(), "Achievement_Criteria.dbc");
    assert_eq!(SpellRuneCost::filename(), "SpellRuneCost.dbc");
}
