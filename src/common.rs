//! Shared vocabulary: attributes, damage kinds and drain severities.

use vstd::prelude::*;

verus! {

/// A target number: a die counts as a success when it shows more than this.
pub type TargetNumber = i32;

/// The six character attributes.
#[derive(Debug, Clone, Copy, PartialEq, Eq, Structural)]
pub enum Attribute {
    Willpower,
    Intelligence,
    Body,
    Quickness,
    Strength,
    Charisma,
}

/// The two injury tracks.
#[derive(Debug, Clone, Copy, PartialEq, Eq, Structural)]
pub enum DamageType {
    Stun,
    Physical,
}

/// Severity of a wound, as used for spell drain.
#[derive(Debug, Clone, Copy, PartialEq, Eq, Structural)]
pub enum DamageLevel {
    Light,
    Moderate,
    Serious,
    Deadly,
    Variable,
}

/// Anything whose attributes can be read, such as the target of a spell.
pub trait HasAttrs {
    /// The value of `attr`.
    spec fn attr_spec(&self, attr: Attribute) -> int;

    fn attr(&self, attr: Attribute) -> (r: i32)
        ensures
            r == self.attr_spec(attr),
    ;
}

/// The number of boxes of damage that a wound of level `dlvl` inflicts.
pub open spec fn damage_boxes(dlvl: DamageLevel) -> int {
    match dlvl {
        DamageLevel::Light => 1,
        DamageLevel::Moderate => 3,
        DamageLevel::Serious => 6,
        DamageLevel::Deadly => 10,
        DamageLevel::Variable => 0,
    }
}

/// Damage boxes for a severity; a variable severity has no table and
/// inflicts nothing.
pub fn dmg_to_num(dlvl: DamageLevel) -> (r: i32)
    ensures
        r == damage_boxes(dlvl),
{
    match dlvl {
        DamageLevel::Light => 1,
        DamageLevel::Moderate => 3,
        DamageLevel::Serious => 6,
        DamageLevel::Deadly => 10,
        DamageLevel::Variable => 0,
    }
}

} // verus!
