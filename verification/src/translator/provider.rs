//! Lookups into the catalog, one provider for each kind of entry.

pub mod attribute;
pub mod base_type;
pub mod gem;
pub mod passive_skill;
pub mod property;
pub mod requirement;
pub mod stat;
