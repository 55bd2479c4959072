//! Spells, their target numbers, and the outcome of casting one.

use vstd::prelude::*;
use crate::common::{Attribute, DamageLevel, HasAttrs, TargetNumber};
use crate::dice::RollResult;

verus! {

/// Name of a spell.
pub type SpellName = &'static str;

/// Force of a known spell; zero when it is unknown.
pub type ForceLevel = i32;

/// How a target number is found: a fixed number, or an attribute read off
/// whoever the spell is cast at.
pub enum TargetRule {
    Fixed(int),
    Attr(Attribute),
}

/// The target number that `rule` gives against `spell_target`.
pub open spec fn resolve_tn<T: HasAttrs>(rule: TargetRule, spell_target: &T) -> int {
    match rule {
        TargetRule::Fixed(n) => n,
        TargetRule::Attr(a) => spell_target.attr_spec(a),
    }
}

/// What a spell must beat.
pub trait SpellTargetNumber {
    /// How the target number is found.
    spec fn rule(&self) -> TargetRule;

    fn to_tn<T: HasAttrs>(&self, spell_target: &T) -> (r: TargetNumber)
        ensures
            r == resolve_tn(self.rule(), spell_target),
    ;
}

impl SpellTargetNumber for Attribute {
    open spec fn rule(&self) -> TargetRule {
        TargetRule::Attr(*self)
    }

    fn to_tn<T: HasAttrs>(&self, spell_target: &T) -> (r: TargetNumber) {
        spell_target.attr(*self)
    }
}

impl SpellTargetNumber for i32 {
    open spec fn rule(&self) -> TargetRule {
        TargetRule::Fixed(*self as int)
    }

    fn to_tn<T: HasAttrs>(&self, spell_target: &T) -> (r: TargetNumber) {
        *self
    }
}

/// A spell: its drain severity and modifier, and what it must beat.
#[derive(Debug)]
pub struct Spell<T: SpellTargetNumber> {
    pub name: &'static str,
    pub drain_level: DamageLevel,
    pub drain_modifier: i32,
    pub target: T,
}

impl<S> Spell<S> where S: SpellTargetNumber {
    /// The target number of this spell against `target`.
    pub fn to_tn<T: HasAttrs>(&self, target: &T) -> (r: TargetNumber)
        ensures
            r == resolve_tn(self.target.rule(), target),
    {
        self.target.to_tn(target)
    }
}

/// Outcome of casting a spell.
#[derive(Debug, Clone, Copy, PartialEq, Eq, Structural)]
pub struct SpellResult {
    pub success: bool,
    pub successes: i32,
    /// The severity of the drain the caster took, if any.
    pub drain_result: Option<DamageLevel>,
}

impl SpellResult {
    /// The outcome of a cast whose sorcery test gave `roll` and whose drain
    /// gave `drain_damage`.
    pub fn from_roll(roll: RollResult, drain_damage: Option<DamageLevel>) -> (r: Self)
        ensures
            r.success == roll.success,
            r.successes == roll.successes,
            r.drain_result == drain_damage,
    {
        SpellResult { success: roll.success, successes: roll.successes, drain_result: drain_damage }
    }
}

} // verus!
