//! The string-template engine and the catalog-driven translation built on it.

pub mod provider;
pub mod translator;
pub mod util;
