//! Tables of the first release of the game.
pub mod faction;
pub mod unit_blood_levels;
