//! The character as the game exports it: items and passive skills.

pub mod items;
pub mod passive_skills;
