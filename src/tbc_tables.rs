//! Tables of the first expansion.
pub mod chat_channels;
pub mod mail_template;
pub mod spell_missile_motion;
pub mod talent;
