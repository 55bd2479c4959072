use std::cell::Cell;

use shadowfun::character::{Character, Race};
use shadowfun::common::{dmg_to_num, Attribute, DamageLevel, DamageType};
use shadowfun::dice::{explode_step, resolve_draws, slot_value, sum_draws, DefaultRoller, RollResult, Roller};
use shadowfun::magic::{Spell, SpellResult};
use shadowfun::skills::{HasSkills, Repertoire, Skill};

/// Hands out the faces of a fixed sequence, then fours.
struct SeqRoller {
    faces: Vec<i32>,
    next: Cell<usize>,
}

impl SeqRoller {
    fn with(faces: Vec<i32>) -> Self {
        SeqRoller { faces: faces, next: Cell::new(0) }
    }
}

impl Roller for SeqRoller {
    fn new(_verbose: bool) -> Self {
        SeqRoller::with(Vec::new())
    }

    fn verbose(&self) -> bool {
        false
    }

    fn d6(&self) -> i32 {
        let i = self.next.get();
        self.next.set(i + 1);
        if i < self.faces.len() {
            self.faces[i]
        } else {
            4
        }
    }
}

/// Always shows the same face and counts how often it was asked.
struct CountingRoller {
    face: i32,
    draws: Cell<u32>,
}

impl CountingRoller {
    fn showing(face: i32) -> Self {
        CountingRoller { face: face, draws: Cell::new(0) }
    }
}

impl Roller for CountingRoller {
    fn new(_verbose: bool) -> Self {
        CountingRoller::showing(5)
    }

    fn verbose(&self) -> bool {
        false
    }

    fn d6(&self) -> i32 {
        self.draws.set(self.draws.get() + 1);
        self.face
    }
}

fn oxygenate() -> Spell<i32> {
    Spell { name: "oxygenate", drain_level: DamageLevel::Light, drain_modifier: 2, target: 4 }
}

#[test]
fn exploding_six_six_three_gives_fifteen() {
    let r = SeqRoller::with(vec![6, 6, 3]);
    let res = r.roll(1, 14);
    assert_eq!(res.successes, 1);
    assert!(res.success);
    assert!(!res.catastrophic_fail);

    let r = SeqRoller::with(vec![6, 6, 3]);
    let res = r.roll(1, 15);
    assert_eq!(res.successes, 0);
    assert!(!res.success);

    let r = SeqRoller::with(vec![6, 3]);
    assert_eq!(r.explode(), 15);
}

#[test]
fn all_ones_is_catastrophic() {
    let r = CountingRoller::showing(1);
    let res = r.roll(4, 3);
    assert!(res.catastrophic_fail);
    assert!(!res.success);
    assert_eq!(res.successes, 0);

    let r = SeqRoller::with(vec![1, 1, 2]);
    let res = r.roll(3, 3);
    assert!(!res.catastrophic_fail);
}

#[test]
fn successes_count_dice_above_target() {
    let r = SeqRoller::with(vec![2, 5, 4, 6, 1, 3]);
    // dice: 2, 5, 4, 6+1=7, 3
    let res = r.roll(5, 3);
    assert_eq!(res.successes, 3);
    assert!(res.success);
    assert!(!res.catastrophic_fail);
    let r = CountingRoller::showing(3);
    let res = r.roll(6, 3);
    assert_eq!(res.successes, 0);
    assert!(!res.success);
}

#[test]
fn empty_pool_is_vacuously_catastrophic_in_the_roller() {
    let r = CountingRoller::showing(5);
    let res = r.roll(0, 3);
    assert_eq!(res, RollResult { success: false, catastrophic_fail: true, successes: 0 });
    assert_eq!(r.draws.get(), 0);
    let res = r.roll(-2, 3);
    assert_eq!(res, RollResult { success: false, catastrophic_fail: false, successes: 0 });
}

#[test]
fn tally_counts_values() {
    let res = RollResult::tally(3, &vec![1, 8, 4], 4);
    assert_eq!(res, RollResult { success: true, catastrophic_fail: false, successes: 1 });
    let res = RollResult::tally(2, &vec![1, 1], 0);
    assert_eq!(res, RollResult { success: true, catastrophic_fail: true, successes: 2 });
    let res = RollResult::tally(0, &vec![], 0);
    assert_eq!(res, RollResult { success: false, catastrophic_fail: true, successes: 0 });
}

#[test]
fn nd6_sums_draws() {
    let r = SeqRoller::with(vec![1, 2, 6, 5]);
    assert_eq!(r.nd6(4), 14);
    let r = CountingRoller::showing(5);
    assert_eq!(r.nd6(0), 0);
    assert_eq!(r.nd6(-3), 0);
}

#[test]
fn default_roller_draws_faces() {
    let r = DefaultRoller::new(true);
    assert!(r.verbose());
    for _ in 0..200 {
        let d = r.d6();
        assert!(1 <= d && d <= 6);
    }
    let res = r.roll(10, 20);
    assert!(res.successes >= 0 && res.successes <= 10);
    assert_eq!(res.success, res.successes > 0);
    let s = r.nd6(4);
    assert!(4 <= s && s <= 24);
}

#[test]
fn drain_severity_table() {
    assert_eq!(dmg_to_num(DamageLevel::Light), 1);
    assert_eq!(dmg_to_num(DamageLevel::Moderate), 3);
    assert_eq!(dmg_to_num(DamageLevel::Serious), 6);
    assert_eq!(dmg_to_num(DamageLevel::Deadly), 10);
    assert_eq!(dmg_to_num(DamageLevel::Variable), 0);
}

#[test]
fn stun_spills_into_physical() {
    let roller = CountingRoller::showing(5);
    let mut c = Character::new("ash", Race::Ork, &roller);
    c.injure(DamageType::Stun, 9);
    assert_eq!(c.stun_level(), 9);
    assert!(!c.is_unconscious());
    c.injure(DamageType::Stun, 1);
    assert_eq!(c.stun_level(), 10);
    assert_eq!(c.phys_level(), 0);
    assert!(c.is_unconscious());
    c.injure(DamageType::Stun, 4);
    assert_eq!(c.stun_level(), 10);
    assert_eq!(c.phys_level(), 4);
    c.injure(DamageType::Physical, 6);
    assert_eq!(c.phys_level(), 10);
    assert!(!c.is_dead());
    c.injure(DamageType::Physical, 5);
    assert_eq!(c.phys_level(), 15);
    assert!(c.is_dead());
}

#[test]
fn wound_penalty_thresholds() {
    let roller = CountingRoller::showing(5);
    let mut c = Character::new("bo", Race::Human, &roller);
    assert_eq!(c.injury_to_mod(), 0);
    c.injure(DamageType::Physical, 2);
    assert_eq!(c.injury_to_mod(), 1);
    c.injure(DamageType::Physical, 3);
    assert_eq!(c.injury_to_mod(), 2);
    c.injure(DamageType::Physical, 1);
    assert_eq!(c.injury_to_mod(), 3);
}

#[test]
fn wounds_raise_the_target_number() {
    let roller = CountingRoller::showing(5);
    let mut c = Character::new("cy", Race::Elf, &roller);
    assert_eq!(c.roll(3, 4).successes, 3);
    c.injure(DamageType::Stun, 1);
    assert_eq!(c.roll(3, 4).successes, 0);
    assert_eq!(c.roll(3, 3).successes, 3);
    assert_eq!(c.roll(3, i32::MAX).successes, 0);
}

#[test]
fn empty_pool_rolls_nothing() {
    let roller = CountingRoller::showing(1);
    let c = Character::new("di", Race::Dwarf, &roller);
    let res = c.roll(0, 4);
    assert_eq!(res, RollResult { success: false, catastrophic_fail: false, successes: 0 });
    let res = c.skill_test("knitting", 4);
    assert_eq!(res, RollResult { success: false, catastrophic_fail: false, successes: 0 });
    assert_eq!(roller.draws.get(), 0);
}

#[test]
fn learning_twice_keeps_one_entry() {
    let mut book = Repertoire::new();
    book.learn("knitting");
    book.learn("knitting");
    assert_eq!(book.level("knitting"), 1);
    book.improve("knitting");
    book.improve_by("knitting", 5);
    assert_eq!(book.level("knitting"), 7);
    book.learn("knitting");
    assert_eq!(book.level("knitting"), 7);
}

#[test]
fn lookup_ignores_case() {
    let roller = CountingRoller::showing(5);
    let mut c = Character::new("ed", Race::Human, &roller);
    c.learn_skill("knitting");
    assert_eq!(c.skill("Knitting"), 1);
    assert_eq!(c.skill("KNITTING"), 1);
    c.learn_skill("Knitting");
    c.improve_skill("KNITTING");
    assert_eq!(c.skill("knitting"), 2);
    c.learn_spell("Manabolt");
    assert_eq!(c.spell_force("manabolt"), 1);
}

#[test]
fn folded_key_lookup() {
    let mut book = Repertoire::new();
    book.learn("Knitting");
    assert_eq!(book.level_of_key(&"knitting".to_string()), 1);
    assert_eq!(book.level_of_key(&"Knitting".to_string()), 0);
    assert_eq!(book.level_of_key(&"sewing".to_string()), 0);
}

#[test]
fn improving_unknown_does_nothing() {
    let mut book = Repertoire::new();
    book.improve("sewing");
    book.improve_by("sewing", 3);
    assert_eq!(book.level("sewing"), 0);
    book.learn("sewing");
    book.improve_by("sewing", 0);
    book.improve_by("sewing", -4);
    assert_eq!(book.level("sewing"), 1);
}

#[test]
fn levels_stop_at_the_largest_value() {
    let mut book = Repertoire::new();
    book.learn("sewing");
    book.improve_by("sewing", i32::MAX);
    assert_eq!(book.level("sewing"), i32::MAX);
    book.improve("sewing");
    assert_eq!(book.level("sewing"), i32::MAX);
}

#[test]
fn skill_entries() {
    let mut s = Skill::new("running");
    assert_eq!(s.level, 1);
    assert_eq!(s.improve(), 2);
    assert_eq!(s.improve_by(3), 5);
    assert_eq!(s.improve_by(-2), 3);
    assert_eq!(s.name, "running");
}

#[test]
fn repertoire_holds_skills() {
    let mut book = Repertoire::new();
    assert!(book.skill("climbing").is_none());
    book.learn_skill(Skill { name: "Climbing", level: 3 }).learn_skill(Skill { name: "climbing", level: 5 });
    let s = book.skill("CLIMBING").unwrap();
    assert_eq!(s.level, 3);
    assert_eq!(s.name, "Climbing");
    assert_eq!(book.level("climbing"), 3);
}

#[test]
fn reaction_rounds_toward_zero() {
    let roller = CountingRoller::showing(5);
    let mut c = Character::new("fy", Race::Troll, &roller);
    c.intelligence = -3;
    c.quickness = 0;
    assert_eq!(c.reaction(), -1);
    c.intelligence = i32::MAX;
    c.quickness = i32::MAX;
    assert_eq!(c.reaction(), i32::MAX);
}

#[test]
fn spell_target_numbers() {
    let roller = CountingRoller::showing(5);
    let mut c = Character::new("gu", Race::Elf, &roller);
    c.charisma = 7;
    let fixed = oxygenate();
    assert_eq!(fixed.to_tn(&c), 4);
    let by_attr = Spell { name: "glamour", drain_level: DamageLevel::Moderate, drain_modifier: 1, target: Attribute::Charisma };
    assert_eq!(by_attr.to_tn(&c), 7);
}

#[test]
fn no_sorcery_means_no_roll() {
    let roller = CountingRoller::showing(6);
    let mut c = Character::new("ha", Race::Human, &roller);
    c.learn_spell("oxygenate");
    let sr = c.cast(&oxygenate());
    assert_eq!(sr, SpellResult { success: false, successes: 0, drain_result: None });
    assert_eq!(roller.draws.get(), 0);
}

#[test]
fn unknown_spell_means_no_roll() {
    let roller = CountingRoller::showing(5);
    let mut c = Character::new("io", Race::Human, &roller);
    c.learn_skill("sorcery");
    let sr = c.cast(&oxygenate());
    assert_eq!(sr, SpellResult { success: false, successes: 0, drain_result: None });
    assert_eq!(roller.draws.get(), 0);
    assert_eq!(c.stun_level(), 0);
}

#[test]
fn failed_sorcery_skips_drain() {
    let roller = CountingRoller::showing(3);
    let mut c = Character::new("jo", Race::Human, &roller);
    c.learn_skill("sorcery");
    c.learn_spell("oxygenate");
    let sr = c.cast(&oxygenate());
    assert_eq!(sr, SpellResult { success: false, successes: 0, drain_result: None });
    assert_eq!(roller.draws.get(), 1);
    assert_eq!(c.stun_level(), 0);
}

#[test]
fn low_force_drain_goes_to_stun() {
    let roller = CountingRoller::showing(5);
    let mut c = Character::new("ka", Race::Human, &roller);
    c.learn_skill("sorcery");
    c.learn_spell("wither");
    c.improve_spell_by("wither", 5);
    c.willpower = 3;
    let wither = Spell { name: "wither", drain_level: DamageLevel::Moderate, drain_modifier: 4, target: 2 };
    // force 6 is not above magic 6; drain target 4 + 3 = 7 beats every 5.
    let sr = c.cast(&wither);
    assert_eq!(sr, SpellResult { success: true, successes: 1, drain_result: Some(DamageLevel::Moderate) });
    assert_eq!(c.stun_level(), 3);
    assert_eq!(c.phys_level(), 0);
}

#[test]
fn high_force_drain_goes_to_physical() {
    let roller = CountingRoller::showing(5);
    let mut c = Character::new("lu", Race::Human, &roller);
    c.learn_skill("sorcery");
    c.learn_spell("wither");
    c.improve_spell_by("wither", 6);
    c.willpower = 3;
    let wither = Spell { name: "wither", drain_level: DamageLevel::Deadly, drain_modifier: 2, target: 2 };
    let sr = c.cast(&wither);
    assert_eq!(sr, SpellResult { success: true, successes: 1, drain_result: Some(DamageLevel::Deadly) });
    assert_eq!(c.stun_level(), 0);
    assert_eq!(c.phys_level(), 10);
}

#[test]
fn drain_ignores_wounds() {
    let roller = CountingRoller::showing(5);
    let mut c = Character::new("mo", Race::Human, &roller);
    c.learn_skill("sorcery");
    c.learn_spell("oxygenate");
    c.improve_spell_by("oxygenate", 5);
    c.willpower = 2;
    c.injure(DamageType::Stun, 1);
    // sorcery needs more than 4 + 1; a 5 does not do it.
    let sr = c.cast(&oxygenate());
    assert!(!sr.success);
    let easy = Spell { name: "oxygenate", drain_level: DamageLevel::Light, drain_modifier: 1, target: 3 };
    // sorcery beats 3 + 1; drain needs more than 1 + 3 and ignores the wound.
    let sr = c.cast(&easy);
    assert_eq!(sr, SpellResult { success: true, successes: 1, drain_result: None });
    assert_eq!(c.stun_level(), 1);
}

#[test]
fn apply_drain_by_roll() {
    let roller = CountingRoller::showing(5);
    let mut c = Character::new("ny", Race::Human, &roller);
    c.learn_spell("oxygenate");
    let spell = oxygenate();
    let passed = RollResult { success: true, catastrophic_fail: false, successes: 2 };
    assert_eq!(c.apply_drain(&spell, passed), None);
    assert_eq!(c.stun_level(), 0);
    let failed = RollResult { success: false, catastrophic_fail: true, successes: 0 };
    assert_eq!(c.apply_drain(&spell, failed), Some(DamageLevel::Light));
    assert_eq!(c.stun_level(), 1);
    assert_eq!(roller.draws.get(), 0);
}

#[test]
fn spell_result_from_roll() {
    let roll = RollResult { success: true, catastrophic_fail: false, successes: 4 };
    let sr = SpellResult::from_roll(roll, Some(DamageLevel::Serious));
    assert_eq!(sr, SpellResult { success: true, successes: 4, drain_result: Some(DamageLevel::Serious) });
}

#[test]
fn explode_step_adds_and_asks_again_on_six() {
    assert_eq!(explode_step(0, 6), (6, true));
    assert_eq!(explode_step(6, 6), (12, true));
    assert_eq!(explode_step(12, 3), (15, false));
    assert_eq!(explode_step(0, 4), (4, false));
    assert_eq!(explode_step(i32::MAX - 6, 6), (i32::MAX, false));
}

#[test]
fn slot_of_six_six_three_is_fifteen() {
    let draws = vec![6, 6, 3, 2];
    assert_eq!(slot_value(&draws, 0), Some((15, 3)));
    assert_eq!(slot_value(&draws, 3), Some((2, 4)));
    assert_eq!(slot_value(&draws, 4), None);
    assert_eq!(slot_value(&vec![6, 6], 0), None);
    assert_eq!(slot_value(&vec![6, 6, 6, 6, 5], 0), Some((29, 5)));
}

#[test]
fn pool_resolved_from_draws() {
    let draws = vec![6, 6, 3];
    assert_eq!(resolve_draws(1, &draws, 14), Some(RollResult { success: true, catastrophic_fail: false, successes: 1 }));
    assert_eq!(resolve_draws(1, &draws, 15), Some(RollResult { success: false, catastrophic_fail: false, successes: 0 }));
    assert_eq!(resolve_draws(2, &draws, 1), None);
    let draws = vec![2, 5, 4, 6, 1, 3];
    assert_eq!(resolve_draws(5, &draws, 3), Some(RollResult { success: true, catastrophic_fail: false, successes: 3 }));
}

#[test]
fn all_ones_draws_are_reproducibly_catastrophic() {
    let ones = vec![1, 1, 1, 1];
    let first = resolve_draws(4, &ones, 3);
    assert_eq!(first, Some(RollResult { success: false, catastrophic_fail: true, successes: 0 }));
    assert_eq!(resolve_draws(4, &ones, 3), first);
    assert_eq!(resolve_draws(4, &ones, 0), Some(RollResult { success: true, catastrophic_fail: true, successes: 4 }));
}

#[test]
fn sum_of_draws() {
    assert_eq!(sum_draws(&vec![1, 2, 6, 5]), 14);
    assert_eq!(sum_draws(&vec![]), 0);
}

#[test]
fn set_attr_changes_one_attribute() {
    let roller = CountingRoller::showing(5);
    let mut c = Character::new("ob", Race::Human, &roller);
    c.set_attr(Attribute::Willpower, 4);
    c.set_attr(Attribute::Body, 2);
    assert_eq!(c.willpower, 4);
    assert_eq!(c.body, 2);
    assert_eq!(c.strength, 0);
    assert_eq!(c.quickness, 0);
}
