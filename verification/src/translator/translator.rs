//! The translators, by the languages they go between.

pub mod zh_to_en;
