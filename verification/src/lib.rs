//! Turns a character exported in Chinese into English text and resolves the
//! passive-tree nodes that its cluster jewels enable.

pub mod db;
pub mod model;
pub mod pattern;
pub mod search;
pub mod text;
pub mod transformer;
pub mod translator;
