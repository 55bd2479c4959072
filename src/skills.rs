//! Skills and spells that a character knows, each with a level, looked up by
//! name without regard to case.

use vstd::prelude::*;

verus! {

/// What `str::to_lowercase` makes of a name.
pub uninterp spec fn lower_of(s: Seq<char>) -> Seq<char>;

/// Relies on str::to_lowercase: the lower-case form of `s`, which depends
/// on the characters of `s` alone.
#[verifier::external_body]
fn fold_case(s: &str) -> (r: String)
    ensures
        r@ == lower_of(s@),
{
    s.to_lowercase()
}

/// A learned skill (or spell) and its level (or force).
#[derive(Debug, Clone, Copy)]
pub struct Skill {
    pub name: &'static str,
    pub level: i32,
}

impl Skill {
    /// A freshly learned skill, at level one.
    pub fn new(name: &'static str) -> (r: Skill)
        ensures
            r.name == name,
            r.level == 1,
    {
        Skill { name: name, level: 1 }
    }

    /// Raises the level by one and returns the new level.
    pub fn improve(&mut self) -> (r: i32)
        requires
            old(self).level < i32::MAX,
        ensures
            final(self).name == old(self).name,
            final(self).level == old(self).level + 1,
            r == final(self).level,
    {
        self.level += 1;
        self.level
    }

    /// Adds `level` to the level and returns the new level.
    pub fn improve_by(&mut self, level: i32) -> (r: i32)
        requires
            i32::MIN <= old(self).level + level <= i32::MAX,
        ensures
            final(self).name == old(self).name,
            final(self).level == old(self).level + level,
            r == final(self).level,
    {
        self.level += level;
        self.level
    }
}

/// Something that holds skills, looked up by name without regard to case.
pub trait HasSkills: Sized {
    /// Lower-case skill name to level.
    spec fn skill_levels(&self) -> Map<Seq<char>, int>;

    /// The holder is consistent.
    spec fn holds_skills(&self) -> bool;

    /// The entry for `name`, in any case.
    fn skill(&self, name: &'static str) -> (r: Option<&Skill>)
        requires
            self.holds_skills(),
        ensures
            r is Some <==> self.skill_levels().contains_key(lower_of(name@)),
            r matches Some(s) ==> lower_of(s.name@) == lower_of(name@) && s.level == self.skill_levels()[lower_of(name@)],
    ;

    /// Adds `skill` at its own level, unless its name is known in any case.
    fn learn_skill(&mut self, skill: Skill) -> (r: &mut Self)
        requires
            old(self).holds_skills(),
            skill.level >= 1,
        ensures
            r.holds_skills(),
            r.skill_levels() == (if old(self).skill_levels().contains_key(lower_of(skill.name@)) {
                old(self).skill_levels()
            } else {
                old(self).skill_levels().insert(lower_of(skill.name@), skill.level as int)
            }),
            *final(self) == *final(r),
    ;
}

/// The level stored under `key` in `m`; zero when there is none.
pub open spec fn level_in(m: Map<Seq<char>, int>, key: Seq<char>) -> int {
    if m.contains_key(key) {
        m[key]
    } else {
        0
    }
}

/// `m` after learning `key`: a new entry at level one, or no change when
/// the key is already known.
pub open spec fn learned(m: Map<Seq<char>, int>, key: Seq<char>) -> Map<Seq<char>, int> {
    if m.contains_key(key) {
        m
    } else {
        m.insert(key, 1)
    }
}

/// `m` after improving `key` by `amount`: only a known key with a positive
/// amount changes, and a level stops at `i32::MAX`.
pub open spec fn improved(m: Map<Seq<char>, int>, key: Seq<char>, amount: int) -> Map<
    Seq<char>,
    int,
> {
    if m.contains_key(key) && amount > 0 {
        m.insert(key, if m[key] + amount > i32::MAX { i32::MAX as int } else { m[key] + amount })
    } else {
        m
    }
}

/// Learning a name that is already known changes nothing, so learning it
/// twice leaves the one entry that the first learning made, at level one
/// when the name was new.
pub proof fn lemma_learn_idempotent(m: Map<Seq<char>, int>, key: Seq<char>)
    ensures
        learned(learned(m, key), key) == learned(m, key),
        learned(m, key).contains_key(key),
        !m.contains_key(key) ==> learned(m, key) == m.insert(key, 1),
        !m.contains_key(key) ==> learned(m, key).dom() == m.dom().insert(key),
{
    if !m.contains_key(key) {
        assert(learned(m, key).dom() =~= m.dom().insert(key));
    }
}

/// A set of named entries with levels. Names are compared by their
/// lower-case form; each form appears once, and every level is at least one.
#[derive(Debug)]
pub struct Repertoire {
    keys: Vec<String>,
    entries: Vec<Skill>,
}

impl View for Repertoire {
    type V = Map<Seq<char>, int>;

    /// Lower-case name to level.
    closed spec fn view(&self) -> Map<Seq<char>, int> {
        Map::new(|k: Seq<char>| self.has_key(k), |k: Seq<char>| self.entries@[self.index_of_key(k)].level as int)
    }
}

impl Repertoire {
    spec fn has_key(&self, k: Seq<char>) -> bool {
        exists|i: int| 0 <= i < self.keys@.len() && #[trigger] self.keys@[i]@ == k
    }

    spec fn index_of_key(&self, k: Seq<char>) -> int {
        choose|i: int| 0 <= i < self.keys@.len() && #[trigger] self.keys@[i]@ == k
    }

    /// The entries are consistent: one key per entry, keys unique, levels
    /// positive.
    pub closed spec fn wf(&self) -> bool {
        &&& self.keys@.len() == self.entries@.len()
        &&& forall|i: int| 0 <= i < self.keys@.len() ==> #[trigger] self.keys@[i]@ == lower_of(self.entries@[i].name@)
        &&& forall|i: int| 0 <= i < self.entries@.len() ==> #[trigger] self.entries@[i].level >= 1
        &&& forall|i: int, j: int|
            0 <= i < self.keys@.len() && 0 <= j < self.keys@.len() && i != j ==> #[trigger] self.keys@[i]@ != #[trigger] self.keys@[j]@
    }

    proof fn lemma_view_at(&self, i: int)
        requires
            self.wf(),
            0 <= i < self.keys@.len(),
        ensures
            self@.contains_key(self.keys@[i]@),
            self@[self.keys@[i]@] == self.entries@[i].level,
    {
        let k = self.keys@[i]@;
        assert(self.has_key(k));
        let j = self.index_of_key(k);
        assert(self.keys@[j]@ == k);
    }

    /// Every level is at least one.
    pub proof fn lemma_levels_positive(&self, key: Seq<char>)
        requires
            self.wf(),
            self@.contains_key(key),
        ensures
            self@[key] >= 1,
    {
        let j = self.index_of_key(key);
        assert(self.keys@[j]@ == key);
    }

    /// An empty repertoire.
    pub fn new() -> (r: Repertoire)
        ensures
            r.wf(),
            r@ == Map::<Seq<char>, int>::empty(),
    {
        let r = Repertoire { keys: Vec::new(), entries: Vec::new() };
        assert(r@ =~= Map::<Seq<char>, int>::empty());
        r
    }

    fn position(&self, key: &String) -> (r: Option<usize>)
        requires
            self.wf(),
        ensures
            match r {
                Some(i) => i < self.keys@.len() && self.keys@[i as int]@ == key@,
                None => !self@.contains_key(key@),
            },
    {
        let mut i: usize = 0;
        while i < self.keys.len()
            invariant
                self.wf(),
                i <= self.keys@.len(),
                forall|j: int| 0 <= j < i ==> #[trigger] self.keys@[j]@ != key@,
            decreases self.keys@.len() - i,
        {
            if self.keys[i] == *key {
                return Some(i);
            }
            i = i + 1;
        }
        None
    }

    /// The level stored under the lower-case name `key`; zero when there is
    /// none.
    pub fn level_of_key(&self, key: &String) -> (r: i32)
        requires
            self.wf(),
        ensures
            r == level_in(self@, key@),
    {
        match self.position(key) {
            Some(i) => {
                proof {
                    self.lemma_view_at(i as int);
                }
                self.entries[i].level
            },
            None => 0,
        }
    }

    /// The level of `name`, in any case; zero when it is unknown.
    pub fn level(&self, name: &str) -> (r: i32)
        requires
            self.wf(),
        ensures
            r == level_in(self@, lower_of(name@)),
    {
        let key = fold_case(name);
        self.level_of_key(&key)
    }

    /// Appends `skill` under `key`, a name not yet known.
    fn add(&mut self, key: String, skill: Skill)
        requires
            old(self).wf(),
            key@ == lower_of(skill.name@),
            !old(self)@.contains_key(key@),
            skill.level >= 1,
        ensures
            final(self).wf(),
            final(self)@ == old(self)@.insert(key@, skill.level as int),
    {
        let ghost pre = *self;
        let ghost k = key@;
        let ghost v = skill.level as int;
        self.keys.push(key);
        self.entries.push(skill);
        proof {
            let n = pre.keys@.len() as int;
            assert forall|i: int| 0 <= i < n implies #[trigger] self.keys@[i]@ != k by {
                assert(self.keys@[i] == pre.keys@[i]);
                if pre.keys@[i]@ == k {
                    pre.lemma_view_at(i);
                }
            }
            assert(self.wf());
            assert forall|k2: Seq<char>| #[trigger] self@.contains_key(k2) == pre@.insert(k, v).contains_key(k2) by {
                if pre@.contains_key(k2) {
                    let j = pre.index_of_key(k2);
                    assert(self.keys@[j] == pre.keys@[j]);
                }
                if self@.contains_key(k2) && k2 != k {
                    let j = self.index_of_key(k2);
                    assert(self.keys@[j] == pre.keys@[j]);
                }
                if k2 == k {
                    assert(self.keys@[n]@ == k);
                }
            }
            assert forall|k2: Seq<char>| #[trigger] self@.contains_key(k2) implies self@[k2] == pre@.insert(k, v)[k2] by {
                if k2 == k {
                    self.lemma_view_at(n);
                } else {
                    let j = pre.index_of_key(k2);
                    assert(self.keys@[j] == pre.keys@[j]);
                    pre.lemma_view_at(j);
                    self.lemma_view_at(j);
                }
            }
            assert(self@ =~= pre@.insert(k, v));
        }
    }

    /// Learns `name` at level one; a name known in any case is left as it is.
    pub fn learn(&mut self, name: &'static str)
        requires
            old(self).wf(),
        ensures
            final(self).wf(),
            final(self)@ == learned(old(self)@, lower_of(name@)),
    {
        let key = fold_case(name);
        match self.position(&key) {
            Some(i) => {
                proof {
                    self.lemma_view_at(i as int);
                }
            },
            None => {
                self.add(key, Skill::new(name));
            },
        }
    }

    /// Raises the level of a known `name` by `amount`, stopping at
    /// `i32::MAX`; an unknown name, or an amount that is not positive,
    /// changes nothing.
    pub fn improve_by(&mut self, name: &str, amount: i32)
        requires
            old(self).wf(),
        ensures
            final(self).wf(),
            final(self)@ == improved(old(self)@, lower_of(name@), amount as int),
    {
        let key = fold_case(name);
        if amount <= 0 {
            return;
        }
        match self.position(&key) {
            Some(i) => {
                let ghost pre = *self;
                let ghost k = key@;
                proof {
                    pre.lemma_view_at(i as int);
                }
                if self.entries[i].level > i32::MAX - amount {
                    let room = i32::MAX - self.entries[i].level;
                    self.entries[i].improve_by(room);
                } else {
                    self.entries[i].improve_by(amount);
                }
                proof {
                    let v = self.entries@[i as int].level as int;
                    assert forall|j: int| 0 <= j < self.keys@.len() && j != i implies #[trigger] self.entries@[j] == pre.entries@[j] by {}
                    assert(self.wf());
                    assert forall|k2: Seq<char>| #[trigger] self@.contains_key(k2) == pre@.contains_key(k2) by {
                        if pre@.contains_key(k2) {
                            let j = pre.index_of_key(k2);
                            assert(self.keys@[j] == pre.keys@[j]);
                        }
                    }
                    assert forall|k2: Seq<char>| #[trigger] self@.contains_key(k2) implies self@[k2] == pre@.insert(k, v)[k2] by {
                        let j = pre.index_of_key(k2);
                        pre.lemma_view_at(j);
                        self.lemma_view_at(j);
                    }
                    assert(self@ =~= pre@.insert(k, v));
                }
            },
            None => {},
        }
    }

    /// Raises the level of a known `name` by one, stopping at `i32::MAX`;
    /// an unknown name changes nothing.
    pub fn improve(&mut self, name: &str)
        requires
            old(self).wf(),
        ensures
            final(self).wf(),
            final(self)@ == improved(old(self)@, lower_of(name@), 1),
    {
        self.improve_by(name, 1);
    }
}

impl HasSkills for Repertoire {
    open spec fn skill_levels(&self) -> Map<Seq<char>, int> {
        self@
    }

    open spec fn holds_skills(&self) -> bool {
        self.wf()
    }

    fn skill(&self, name: &'static str) -> (r: Option<&Skill>) {
        let key = fold_case(name);
        match self.position(&key) {
            Some(i) => {
                proof {
                    self.lemma_view_at(i as int);
                }
                Some(&self.entries[i])
            },
            None => None,
        }
    }

    fn learn_skill(&mut self, skill: Skill) -> (r: &mut Self) {
        let key = fold_case(skill.name);
        match self.position(&key) {
            Some(i) => {
                proof {
                    self.lemma_view_at(i as int);
                }
            },
            None => {
                self.add(key, skill);
            },
        }
        self
    }
}

} // verus!
