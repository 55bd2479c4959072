//! Tabletop role-playing resolution rules: exploding dice pools, an injury
//! model that penalises later rolls, skill and spell stores, and a
//! spellcasting pipeline with drain.

pub mod common;
pub mod dice;
pub mod skills;
pub mod magic;
pub mod character;
