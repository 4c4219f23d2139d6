//! Tables of the second expansion.
pub mod achievement_criteria;
pub mod area_group;
pub mod game_object_display_info;
pub mod gem_properties;
pub mod ground_effect_doodad;
pub mod object_effect;
pub mod pet_personality;
pub mod quest_faction_reward;
pub mod spell_difficulty;
pub mod spell_rune_cost;
