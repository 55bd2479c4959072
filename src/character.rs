//! Characters: attributes, what they know, their wounds, and the tests and
//! spells they roll.

use vstd::prelude::*;
use crate::common::{dmg_to_num, damage_boxes, Attribute, DamageLevel, DamageType, HasAttrs, TargetNumber};
use crate::dice::{pool_len, possible_roll, RollResult, Roller};
use crate::magic::{ForceLevel, Spell, SpellName, SpellResult, SpellTargetNumber, resolve_tn};
use crate::skills::{improved, learned, level_in, lower_of, Repertoire};

verus! {

/// Name of a skill.
pub type SkillName = &'static str;

/// Level of a skill; zero when it is unknown.
pub type SkillLevel = i32;

/// The stun (or physical) level at which a character drops (or dies).
pub const CONDITION_LIMIT: i32 = 10;

/// A character's race; it has no bearing on the rules.
#[derive(Debug, Clone, Copy, PartialEq, Eq, Structural)]
pub enum Race {
    Human,
    Ork,
    Elf,
    Dwarf,
    Troll,
}

/// Everything a character is, as plain values.
pub struct CharacterView {
    pub name: &'static str,
    pub race: Race,
    pub body: int,
    pub intelligence: int,
    pub strength: int,
    pub charisma: int,
    pub willpower: int,
    pub quickness: int,
    pub magic: int,
    /// Lower-case skill name to level.
    pub skills: Map<Seq<char>, int>,
    /// Lower-case spell name to force.
    pub spells: Map<Seq<char>, int>,
    pub stun: int,
    pub phys: int,
}

/// The value of `attr` in `c`.
pub open spec fn attr_of(c: CharacterView, attr: Attribute) -> int {
    match attr {
        Attribute::Body => c.body,
        Attribute::Willpower => c.willpower,
        Attribute::Strength => c.strength,
        Attribute::Intelligence => c.intelligence,
        Attribute::Quickness => c.quickness,
        Attribute::Charisma => c.charisma,
    }
}

/// `c` with `attr` set to `value`, all else unchanged.
pub open spec fn with_attr(c: CharacterView, attr: Attribute, value: int) -> CharacterView {
    match attr {
        Attribute::Body => CharacterView { body: value, ..c },
        Attribute::Willpower => CharacterView { willpower: value, ..c },
        Attribute::Strength => CharacterView { strength: value, ..c },
        Attribute::Intelligence => CharacterView { intelligence: value, ..c },
        Attribute::Quickness => CharacterView { quickness: value, ..c },
        Attribute::Charisma => CharacterView { charisma: value, ..c },
    }
}

/// The roll penalty of the worse of the two injury levels.
pub open spec fn injury_mod(worst: int) -> int {
    if worst == 0 {
        0
    } else if 1 <= worst <= 2 {
        1
    } else if 3 <= worst <= 5 {
        2
    } else {
        3
    }
}

/// A target number raised by `bonus`, held at `i32::MAX`; no die can beat
/// `i32::MAX`, so holding it there decides the same tests.
pub open spec fn raised_tn(tn: int, bonus: int) -> int {
    if tn + bonus > i32::MAX {
        i32::MAX as int
    } else {
        tn + bonus
    }
}

/// `x / 2`, rounded toward zero.
pub open spec fn half_toward_zero(x: int) -> int {
    if x >= 0 {
        x / 2
    } else {
        -((-x) / 2)
    }
}

/// The outcome of a test that rolls no dice.
pub open spec fn no_roll() -> RollResult {
    RollResult { success: false, catastrophic_fail: false, successes: 0 }
}

/// The outcome of a cast that was never attempted.
pub open spec fn no_cast() -> SpellResult {
    SpellResult { success: false, successes: 0, drain_result: None }
}

impl CharacterView {
    /// The penalty that this character's wounds add to target numbers.
    pub open spec fn wound_mod(self) -> int {
        injury_mod(if self.stun > self.phys { self.stun } else { self.phys })
    }

    /// This character after `amount` of damage of `kind`. Stun stops at the
    /// limit and what goes past it becomes physical damage; physical damage
    /// has no cap.
    pub open spec fn injured(self, kind: DamageType, amount: int) -> CharacterView {
        match kind {
            DamageType::Stun => if self.stun + amount >= CONDITION_LIMIT {
                CharacterView {
                    stun: CONDITION_LIMIT as int,
                    phys: self.phys + amount - (CONDITION_LIMIT - self.stun),
                    ..self
                }
            } else {
                CharacterView { stun: self.stun + amount, ..self }
            },
            DamageType::Physical => CharacterView { phys: self.phys + amount, ..self },
        }
    }

    /// The level of the sorcery skill.
    pub open spec fn sorcery(self) -> int {
        level_in(self.skills, lower_of("sorcery"@))
    }

    /// The force at which the spell `name` is known.
    pub open spec fn force_of(self, name: Seq<char>) -> int {
        level_in(self.spells, lower_of(name))
    }

    /// Whether this character can attempt the spell `name`: it knows both
    /// sorcery and the spell.
    pub open spec fn can_cast(self, name: Seq<char>) -> bool {
        self.sorcery() != 0 && self.force_of(name) != 0
    }
}

/// The target number of the drain test for a spell of `force`.
pub open spec fn drain_tn(modifier: int, force: int) -> int {
    raised_tn(modifier, force / 2)
}

/// The damage track that drain goes to: physical when the spell's force is
/// above the caster's magic, stun otherwise.
pub open spec fn drain_kind(force: int, magic: int) -> DamageType {
    if force > magic {
        DamageType::Physical
    } else {
        DamageType::Stun
    }
}

/// `c` after a drain test `d` for a spell of `force` and severity `level`.
pub open spec fn after_drain(c: CharacterView, level: DamageLevel, force: int, d: RollResult) -> CharacterView {
    if d.success {
        c
    } else {
        c.injured(drain_kind(force, c.magic), damage_boxes(level))
    }
}

/// The drain a caster took from a drain test `d` for a spell of severity
/// `level`.
pub open spec fn drain_taken(level: DamageLevel, d: RollResult) -> Option<DamageLevel> {
    if d.success {
        None
    } else {
        Some(level)
    }
}

/// `taken` and `c2` are what the drain test after a successful sorcery test
/// can leave when the caster was `c`: willpower dice against the spell's drain
/// modifier plus half its force, wounds not counted.
pub open spec fn drain_outcome(
    c: CharacterView,
    name: Seq<char>,
    level: DamageLevel,
    modifier: int,
    taken: Option<DamageLevel>,
    c2: CharacterView,
) -> bool {
    exists|d: RollResult|
        {
            &&& #[trigger] possible_roll(d, c.willpower, drain_tn(modifier, c.force_of(name)))
            &&& c2 == after_drain(c, level, c.force_of(name), d)
            &&& taken == drain_taken(level, d)
        }
}

/// `r` and `c2` are what casting a spell against target number `tn` can
/// leave when the caster was `c`: no attempt without sorcery and the spell;
/// otherwise a sorcery test, and on its success the drain test.
pub open spec fn cast_outcome(
    c: CharacterView,
    name: Seq<char>,
    level: DamageLevel,
    modifier: int,
    tn: int,
    r: SpellResult,
    c2: CharacterView,
) -> bool {
    if !c.can_cast(name) {
        r == no_cast() && c2 == c
    } else {
        exists|s: RollResult|
            {
                &&& #[trigger] possible_roll(s, c.sorcery(), raised_tn(tn, c.wound_mod()))
                &&& r.success == s.success
                &&& r.successes == s.successes
                &&& !s.success ==> r.drain_result is None && c2 == c
                &&& s.success ==> drain_outcome(c, name, level, modifier, r.drain_result, c2)
            }
    }
}

/// A caster who lacks sorcery or the spell attempts nothing: the cast fails
/// with no successes and no drain, and the caster is unchanged.
pub proof fn lemma_no_cast_without_knowledge(
    c: CharacterView,
    name: Seq<char>,
    level: DamageLevel,
    modifier: int,
    tn: int,
    r: SpellResult,
    c2: CharacterView,
)
    requires
        !c.can_cast(name),
        cast_outcome(c, name, level, modifier, tn, r, c2),
    ensures
        !r.success,
        r.successes == 0,
        r.drain_result is None,
        c2 == c,
{
}

/// A character, rolling with the roller it holds.
#[derive(Debug)]
pub struct Character<'a, T: Roller + 'a> {
    name: &'static str,
    race: Race,
    pub body: i32,
    pub intelligence: i32,
    pub strength: i32,
    pub charisma: i32,
    pub willpower: i32,
    pub quickness: i32,
    pub magic: i32,
    skills: Repertoire,
    spells: Repertoire,
    stun_level: i32,
    phys_level: i32,
    roller: &'a T,
}

impl<'a, S: Roller + 'a> View for Character<'a, S> {
    type V = CharacterView;

    closed spec fn view(&self) -> CharacterView {
        CharacterView {
            name: self.name,
            race: self.race,
            body: self.body as int,
            intelligence: self.intelligence as int,
            strength: self.strength as int,
            charisma: self.charisma as int,
            willpower: self.willpower as int,
            quickness: self.quickness as int,
            magic: self.magic as int,
            skills: self.skills@,
            spells: self.spells@,
            stun: self.stun_level as int,
            phys: self.phys_level as int,
        }
    }
}

/// Raises `tn` by `bonus`, held at `i32::MAX`.
fn raise_tn(tn: i32, bonus: i32) -> (r: i32)
    requires
        bonus >= 0,
    ensures
        r == raised_tn(tn as int, bonus as int),
{
    if tn > i32::MAX - bonus {
        i32::MAX
    } else {
        tn + bonus
    }
}

impl<'a, S: Roller + 'a> Character<'a, S> {
    /// The stores are consistent, stun is within `0..=CONDITION_LIMIT`, and
    /// physical damage is not negative.
    pub closed spec fn wf(&self) -> bool {
        &&& self.skills.wf()
        &&& self.spells.wf()
        &&& 0 <= self.stun_level <= CONDITION_LIMIT
        &&& 0 <= self.phys_level
    }

    /// The roller this character rolls with.
    pub closed spec fn roller_spec(&self) -> &'a S {
        self.roller
    }

    /// A character with every attribute at zero, magic six, nothing learned
    /// and no wounds.
    pub fn new(name: &'static str, race: Race, roller: &'a S) -> (r: Character<'a, S>)
        ensures
            r.wf(),
            r@ == (CharacterView {
                name: name,
                race: race,
                body: 0,
                intelligence: 0,
                strength: 0,
                charisma: 0,
                willpower: 0,
                quickness: 0,
                magic: 6,
                skills: Map::empty(),
                spells: Map::empty(),
                stun: 0,
                phys: 0,
            }),
            r.roller_spec() == roller,
    {
        Character {
            name: name,
            race: race,
            body: 0,
            intelligence: 0,
            strength: 0,
            charisma: 0,
            willpower: 0,
            quickness: 0,
            magic: 6,
            skills: Repertoire::new(),
            spells: Repertoire::new(),
            phys_level: 0,
            stun_level: 0,
            roller: roller,
        }
    }

    /// A well-formed character has stun within `0..=CONDITION_LIMIT` and no
    /// negative physical damage.
    pub proof fn lemma_wf_bounds(&self)
        requires
            self.wf(),
        ensures
            0 <= self@.stun <= CONDITION_LIMIT,
            0 <= self@.phys,
    {
    }

    /// Sets the attribute `attr` to `value`.
    pub fn set_attr(&mut self, attr: Attribute, value: i32)
        requires
            old(self).wf(),
        ensures
            final(self).wf(),
            final(self)@ == with_attr(old(self)@, attr, value as int),
            final(self).roller_spec() == old(self).roller_spec(),
    {
        match attr {
            Attribute::Body => self.body = value,
            Attribute::Willpower => self.willpower = value,
            Attribute::Strength => self.strength = value,
            Attribute::Intelligence => self.intelligence = value,
            Attribute::Quickness => self.quickness = value,
            Attribute::Charisma => self.charisma = value,
        }
    }

    /// Rolls with `roller` from now on.
    pub fn set_roller(&mut self, roller: &'a S)
        requires
            old(self).wf(),
        ensures
            final(self).wf(),
            final(self)@ == old(self)@,
            final(self).roller_spec() == roller,
    {
        self.roller = roller
    }

    /// Learns `skill` at level one, unless it is known in any case.
    pub fn learn_skill(&mut self, skill: SkillName)
        requires
            old(self).wf(),
        ensures
            final(self).wf(),
            final(self)@ == (CharacterView { skills: learned(old(self)@.skills, lower_of(skill@)), ..old(self)@ }),
            final(self).roller_spec() == old(self).roller_spec(),
    {
        self.skills.learn(skill);
    }

    /// Raises a known `skill` by one level; an unknown one is left alone.
    pub fn improve_skill(&mut self, skill: SkillName)
        requires
            old(self).wf(),
        ensures
            final(self).wf(),
            final(self)@ == (CharacterView { skills: improved(old(self)@.skills, lower_of(skill@), 1), ..old(self)@ }),
            final(self).roller_spec() == old(self).roller_spec(),
    {
        self.skills.improve(skill);
    }

    /// Raises a known `skill` by `amount` levels; an unknown one is left
    /// alone.
    pub fn improve_skill_by(&mut self, skill: SkillName, amount: SkillLevel)
        requires
            old(self).wf(),
        ensures
            final(self).wf(),
            final(self)@ == (CharacterView {
                skills: improved(old(self)@.skills, lower_of(skill@), amount as int),
                ..old(self)@
            }),
            final(self).roller_spec() == old(self).roller_spec(),
    {
        self.skills.improve_by(skill, amount);
    }

    /// The level of `skill`, in any case; zero when it is unknown.
    pub fn skill(&self, skill: SkillName) -> (r: SkillLevel)
        requires
            self.wf(),
        ensures
            r == level_in(self@.skills, lower_of(skill@)),
    {
        self.skills.level(skill)
    }

    /// A test of `skill` against `tn`: as many dice as its level, with the
    /// wound penalty added to the target number.
    pub fn skill_test(&self, skill: SkillName, tn: TargetNumber) -> (r: RollResult)
        requires
            self.wf(),
        ensures
            level_in(self@.skills, lower_of(skill@)) == 0 ==> r == no_roll(),
            level_in(self@.skills, lower_of(skill@)) != 0 ==> possible_roll(
                r,
                level_in(self@.skills, lower_of(skill@)),
                raised_tn(tn as int, self@.wound_mod()),
            ),
    {
        proof {
            self.lemma_levels_positive();
        }
        self.roll(self.skill(skill), tn)
    }

    /// Learns the spell `spell_name` at force one, unless it is known in any
    /// case.
    pub fn learn_spell(&mut self, spell_name: SpellName)
        requires
            old(self).wf(),
        ensures
            final(self).wf(),
            final(self)@ == (CharacterView { spells: learned(old(self)@.spells, lower_of(spell_name@)), ..old(self)@ }),
            final(self).roller_spec() == old(self).roller_spec(),
    {
        self.spells.learn(spell_name);
    }

    /// Raises a known spell by one force; an unknown one is left alone.
    pub fn improve_spell(&mut self, spell_name: SpellName)
        requires
            old(self).wf(),
        ensures
            final(self).wf(),
            final(self)@ == (CharacterView {
                spells: improved(old(self)@.spells, lower_of(spell_name@), 1),
                ..old(self)@
            }),
            final(self).roller_spec() == old(self).roller_spec(),
    {
        self.spells.improve(spell_name);
    }

    /// Raises a known spell by `amount` force; an unknown one is left alone.
    pub fn improve_spell_by(&mut self, spell_name: SpellName, amount: ForceLevel)
        requires
            old(self).wf(),
        ensures
            final(self).wf(),
            final(self)@ == (CharacterView {
                spells: improved(old(self)@.spells, lower_of(spell_name@), amount as int),
                ..old(self)@
            }),
            final(self).roller_spec() == old(self).roller_spec(),
    {
        self.spells.improve_by(spell_name, amount);
    }

    /// The force of `spell_name`, in any case; zero when it is unknown.
    pub fn spell_force(&self, spell_name: SpellName) -> (r: ForceLevel)
        requires
            self.wf(),
        ensures
            r == level_in(self@.spells, lower_of(spell_name@)),
    {
        self.spells.level(spell_name)
    }

    /// The penalty that wounds add to target numbers: none unwounded, then
    /// one, two and three as the worse track reaches 1, 3 and 6.
    pub fn injury_to_mod(&self) -> (r: i32)
        requires
            self.wf(),
        ensures
            r == self@.wound_mod(),
            0 <= r <= 3,
    {
        let worst = if self.stun_level > self.phys_level {
            self.stun_level
        } else {
            self.phys_level
        };
        if worst == 0 {
            0
        } else if 1 <= worst && worst <= 2 {
            1
        } else if 3 <= worst && worst <= 5 {
            2
        } else {
            3
        }
    }

    /// Rolls `die` dice against `tn` raised by the wound penalty. A pool
    /// without dice rolls nothing and fails, without a catastrophe.
    pub fn roll(&self, die: i32, tn: TargetNumber) -> (r: RollResult)
        requires
            self.wf(),
        ensures
            die <= 0 ==> r == no_roll(),
            die > 0 ==> possible_roll(r, die as int, raised_tn(tn as int, self@.wound_mod())),
            0 <= r.successes <= pool_len(die as int),
            r.success == (r.successes > 0),
    {
        if die <= 0 {
            return RollResult { success: false, catastrophic_fail: false, successes: 0 };
        }
        let tn = raise_tn(tn, self.injury_to_mod());
        self.roller.roll(die, tn)
    }

    /// Takes `amount` of damage of `kind`. Stun stops at the limit and what
    /// goes past it becomes physical damage; physical damage has no cap.
    pub fn injure(&mut self, kind: DamageType, amount: i32)
        requires
            old(self).wf(),
            amount >= 0,
            old(self)@.phys + amount <= i32::MAX,
        ensures
            final(self).wf(),
            final(self)@ == old(self)@.injured(kind, amount as int),
            final(self).roller_spec() == old(self).roller_spec(),
    {
        match kind {
            DamageType::Stun => {
                if amount >= CONDITION_LIMIT - self.stun_level {
                    self.phys_level += amount - (CONDITION_LIMIT - self.stun_level);
                    self.stun_level = CONDITION_LIMIT;
                } else {
                    self.stun_level += amount;
                }
            },
            DamageType::Physical => {
                self.phys_level += amount;
            },
        }
    }

    /// The stun level.
    pub fn stun_level(&self) -> (r: i32)
        ensures
            r == self@.stun,
    {
        self.stun_level
    }

    /// The physical damage level.
    pub fn phys_level(&self) -> (r: i32)
        ensures
            r == self@.phys,
    {
        self.phys_level
    }

    /// Whether stun has reached the limit and knocked the character out.
    pub fn is_unconscious(&self) -> (r: bool)
        ensures
            r == (self@.stun >= CONDITION_LIMIT),
    {
        self.stun_level >= CONDITION_LIMIT
    }

    /// Whether physical damage has gone past the limit and killed the
    /// character.
    pub fn is_dead(&self) -> (r: bool)
        ensures
            r == (self@.phys > CONDITION_LIMIT),
    {
        self.phys_level > CONDITION_LIMIT
    }

    /// Reaction: the mean of intelligence and quickness, rounded toward zero.
    pub fn reaction(&self) -> (r: i32)
        ensures
            r == half_toward_zero(self@.intelligence + self@.quickness),
    {
        let sum: i64 = self.intelligence as i64 + self.quickness as i64;
        let half: i64 = if sum >= 0 {
            sum / 2
        } else {
            -((-sum) / 2)
        };
        half as i32
    }

    /// Settles drain after a successful sorcery test, given the drain test
    /// `drain_roll`: a failed test injures the caster by the spell's
    /// severity, on the physical track when the spell's force is above the
    /// caster's magic and on the stun track otherwise.
    pub fn apply_drain<T: SpellTargetNumber>(&mut self, spell: &Spell<T>, drain_roll: RollResult) -> (r: Option<DamageLevel>)
        requires
            old(self).wf(),
            old(self)@.phys <= i32::MAX - CONDITION_LIMIT,
        ensures
            final(self).wf(),
            final(self)@ == after_drain(old(self)@, spell.drain_level, old(self)@.force_of(spell.name@), drain_roll),
            r == drain_taken(spell.drain_level, drain_roll),
            final(self).roller_spec() == old(self).roller_spec(),
    {
        if drain_roll.success {
            return None;
        }
        let force = self.spell_force(spell.name);
        let damage_type = if force > self.magic {
            DamageType::Physical
        } else {
            DamageType::Stun
        };
        self.injure(damage_type, dmg_to_num(spell.drain_level));
        Some(spell.drain_level)
    }

    /// Rolls the drain test for `spell` (willpower dice against the spell's
    /// drain modifier plus half its force, wounds not counted) and settles it.
    fn calculate_drain<T: SpellTargetNumber>(&mut self, spell: &Spell<T>) -> (r: Option<DamageLevel>)
        requires
            old(self).wf(),
            old(self)@.phys <= i32::MAX - CONDITION_LIMIT,
        ensures
            final(self).wf(),
            final(self).roller_spec() == old(self).roller_spec(),
            drain_outcome(
                old(self)@,
                spell.name@,
                spell.drain_level,
                spell.drain_modifier as int,
                r,
                final(self)@,
            ),
    {
        proof {
            self.lemma_levels_positive();
        }
        let num_die = self.attr(Attribute::Willpower);
        let force = self.spell_force(spell.name);
        let drain_roll = self.roller.roll(num_die, raise_tn(spell.drain_modifier, force / 2));
        let ghost c = self@;
        let r = self.apply_drain(spell, drain_roll);
        proof {
            assert(possible_roll(drain_roll, c.willpower, drain_tn(spell.drain_modifier as int, c.force_of(spell.name@))));
        }
        r
    }

    /// The sorcery test for `spell` against `tn`; no dice are rolled unless
    /// the caster knows both sorcery and the spell.
    fn sorcery_test<T: SpellTargetNumber>(&self, spell: &Spell<T>, tn: TargetNumber) -> (r: RollResult)
        requires
            self.wf(),
        ensures
            !self@.can_cast(spell.name@) ==> r == no_roll(),
            self@.can_cast(spell.name@) ==> possible_roll(r, self@.sorcery(), raised_tn(tn as int, self@.wound_mod())),
    {
        if 0 == self.spell_force(spell.name) {
            return RollResult { success: false, successes: 0, catastrophic_fail: false };
        }
        if 0 == self.skill("sorcery") {
            return RollResult { success: false, successes: 0, catastrophic_fail: false };
        }
        self.skill_test("sorcery", tn)
    }

    /// Casts `spell` against target number `tn`.
    fn cast_against<T: SpellTargetNumber>(&mut self, spell: &Spell<T>, tn: TargetNumber) -> (r: SpellResult)
        requires
            old(self).wf(),
            old(self)@.phys <= i32::MAX - CONDITION_LIMIT,
        ensures
            final(self).wf(),
            final(self).roller_spec() == old(self).roller_spec(),
            cast_outcome(old(self)@, spell.name@, spell.drain_level, spell.drain_modifier as int, tn as int, r, final(self)@),
    {
        let sorcery_test = self.sorcery_test(spell, tn);
        if !sorcery_test.success {
            let r = SpellResult::from_roll(sorcery_test, None);
            proof {
                if self@.can_cast(spell.name@) {
                    let c = self@;
                    assert(possible_roll(sorcery_test, c.sorcery(), raised_tn(tn as int, c.wound_mod())));
                }
            }
            return r;
        }
        let ghost c = self@;
        let damage = self.calculate_drain(spell);
        let r = SpellResult::from_roll(sorcery_test, damage);
        proof {
            assert(possible_roll(sorcery_test, c.sorcery(), raised_tn(tn as int, c.wound_mod())));
        }
        r
    }

    /// Casts `spell` on this character itself: an attribute target is read
    /// off the caster.
    pub fn cast<T: SpellTargetNumber>(&mut self, spell: &Spell<T>) -> (r: SpellResult)
        requires
            old(self).wf(),
            old(self)@.phys <= i32::MAX - CONDITION_LIMIT,
        ensures
            final(self).wf(),
            final(self).roller_spec() == old(self).roller_spec(),
            cast_outcome(
                old(self)@,
                spell.name@,
                spell.drain_level,
                spell.drain_modifier as int,
                resolve_tn(spell.target.rule(), old(self)),
                r,
                final(self)@,
            ),
    {
        let tn = spell.to_tn(self);
        self.cast_against(spell, tn)
    }

    /// Casts `spell` at `target`: an attribute target is read off `target`.
    pub fn cast_at<T, K>(&mut self, spell: &Spell<T>, target: &K) -> (r: SpellResult)
        where
            T: SpellTargetNumber,
            K: HasAttrs,
        requires
            old(self).wf(),
            old(self)@.phys <= i32::MAX - CONDITION_LIMIT,
        ensures
            final(self).wf(),
            final(self).roller_spec() == old(self).roller_spec(),
            cast_outcome(
                old(self)@,
                spell.name@,
                spell.drain_level,
                spell.drain_modifier as int,
                resolve_tn(spell.target.rule(), target),
                r,
                final(self)@,
            ),
    {
        let tn = spell.to_tn(target);
        self.cast_against(spell, tn)
    }

    /// Every known skill and spell has a level of at least one.
    pub proof fn lemma_levels_positive(&self)
        requires
            self.wf(),
        ensures
            forall|k: Seq<char>| #[trigger] self@.skills.contains_key(k) ==> self@.skills[k] >= 1,
            forall|k: Seq<char>| #[trigger] self@.spells.contains_key(k) ==> self@.spells[k] >= 1,
    {
        assert forall|k: Seq<char>| #[trigger] self@.skills.contains_key(k) implies self@.skills[k] >= 1 by {
            self.skills.lemma_levels_positive(k);
        }
        assert forall|k: Seq<char>| #[trigger] self@.spells.contains_key(k) implies self@.spells[k] >= 1 by {
            self.spells.lemma_levels_positive(k);
        }
    }
}

impl<'a, S: Roller + 'a> HasAttrs for Character<'a, S> {
    open spec fn attr_spec(&self, attr: Attribute) -> int {
        attr_of(self@, attr)
    }

    fn attr(&self, attr: Attribute) -> (r: i32) {
        match attr {
            Attribute::Body => self.body,
            Attribute::Willpower => self.willpower,
            Attribute::Strength => self.strength,
            Attribute::Intelligence => self.intelligence,
            Attribute::Quickness => self.quickness,
            Attribute::Charisma => self.charisma,
        }
    }
}

} // verus!
