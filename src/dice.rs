//! Six-sided dice: single draws, sums, exploding sixes, and pools resolved
//! against a target number.
//!
//! A die of a pool is a slot: its first draw, and when that is a six, six
//! plus each further draw up to and including the first that is not a six.
//! The functions that take draws as arguments (`explode_step`, `slot_value`,
//! `sum_draws`, `resolve_draws`) fix the outcome exactly; the `Roller`
//! methods make their draws and compute through them.

use rand::Rng;
use vstd::prelude::*;

verus! {

/// Outcome of a dice pool.
#[derive(Debug, Clone, Copy, PartialEq, Eq, Structural)]
pub struct RollResult {
    /// At least one die beat the target.
    pub success: bool,
    /// Every die of the pool showed a one.
    pub catastrophic_fail: bool,
    /// How many dice beat the target.
    pub successes: i32,
}

/// A face of a six-sided die.
pub open spec fn is_face(d: int) -> bool {
    1 <= d <= 6
}

/// Every draw of `ds` is a face.
pub open spec fn all_faces(ds: Seq<i32>) -> bool {
    forall|i: int| 0 <= i < ds.len() ==> is_face(#[trigger] ds[i] as int)
}

/// Sum of a sequence of draws.
pub open spec fn total(ds: Seq<i32>) -> int
    decreases ds.len(),
{
    if ds.len() == 0 {
        0
    } else {
        total(ds.drop_last()) + ds.last()
    }
}

/// The number of dice in a pool of `rolls`; a negative pool holds none.
pub open spec fn pool_len(rolls: int) -> nat {
    if rolls > 0 {
        rolls as nat
    } else {
        0
    }
}

/// `ds` are the draws of `n` dice.
pub open spec fn are_faces(ds: Seq<i32>, n: nat) -> bool {
    &&& ds.len() == n
    &&& all_faces(ds)
}

/// `r` is the sum of `rolls` dice.
pub open spec fn is_sum_of_dice(r: int, rolls: int) -> bool {
    exists|ds: Seq<i32>| #[trigger] are_faces(ds, pool_len(rolls)) && r == total(ds)
}

/// Whether a slot that has reached `total` with a last draw of `draw` asks
/// for another draw: it does on a six, as long as an `i32` has room for one
/// more die.
pub open spec fn draws_again(draw: int, total: int) -> bool {
    draw == 6 && total <= i32::MAX - 6
}

/// Reading a slot from `ds` at index `i`, with `acc` counted so far: the
/// slot's value and the index after its last draw, or `None` when `ds` ends
/// before the slot does.
pub open spec fn chain(ds: Seq<i32>, i: int, acc: int) -> Option<(int, int)>
    decreases ds.len() - i,
{
    if i < 0 || i >= ds.len() {
        None
    } else if draws_again(ds[i] as int, acc + ds[i]) {
        chain(ds, i + 1, acc + ds[i])
    } else {
        Some((acc + ds[i], i + 1))
    }
}

/// The slot that starts at index `start` of `ds`.
pub open spec fn slot_at(ds: Seq<i32>, start: int) -> Option<(int, int)> {
    chain(ds, start, 0)
}

/// `s` are exactly the draws of one slot, and `v` its value.
pub open spec fn is_slot_of(s: Seq<i32>, v: int) -> bool {
    &&& all_faces(s)
    &&& slot_at(s, 0) == Some((v, s.len() as int))
}

/// `v` is the value of a die that came up six and exploded.
pub open spec fn is_exploded(v: int) -> bool {
    exists|s: Seq<i32>| #[trigger] is_slot_of(s, v) && s[0] == 6
}

/// `v` is the final value of one die of a pool.
pub open spec fn is_die_value(v: int) -> bool {
    exists|s: Seq<i32>| #[trigger] is_slot_of(s, v)
}

/// `vals` are the final values of a pool of `rolls` dice.
pub open spec fn is_pool(vals: Seq<i32>, rolls: int) -> bool {
    &&& vals.len() == pool_len(rolls)
    &&& forall|i: int| 0 <= i < vals.len() ==> is_die_value(#[trigger] vals[i] as int)
}

/// The values of `n` slots read from `ds` one after another from index
/// `start`, and the index after the last of them; `None` when `ds` ends
/// first.
pub open spec fn pool_from(ds: Seq<i32>, start: int, n: nat) -> Option<(Seq<i32>, int)>
    decreases n,
{
    if n == 0 {
        Some((Seq::<i32>::empty(), start))
    } else {
        match slot_at(ds, start) {
            None => None,
            Some((v, e)) => match pool_from(ds, e, (n - 1) as nat) {
                None => None,
                Some((rest, end)) => Some((seq![v as i32] + rest, end)),
            },
        }
    }
}

/// How many of `vals` exceed `target`.
pub open spec fn count_above(vals: Seq<i32>, target: int) -> nat
    decreases vals.len(),
{
    if vals.len() == 0 {
        0
    } else {
        count_above(vals.drop_last(), target) + if vals.last() > target {
            1nat
        } else {
            0nat
        }
    }
}

/// How many of `vals` are ones.
pub open spec fn count_ones(vals: Seq<i32>) -> nat
    decreases vals.len(),
{
    if vals.len() == 0 {
        0
    } else {
        count_ones(vals.drop_last()) + if vals.last() == 1 {
            1nat
        } else {
            0nat
        }
    }
}

/// `r` is what a pool of `rolls` dice with final values `vals` gives
/// against `target`.
pub open spec fn tallies(r: RollResult, rolls: int, vals: Seq<i32>, target: int) -> bool {
    &&& r.successes == count_above(vals, target)
    &&& r.success == (r.successes > 0)
    &&& r.catastrophic_fail == (count_ones(vals) == rolls)
}

/// The outcome of a pool of `rolls` dice with final values `vals` against
/// `target`.
pub open spec fn tally_of(rolls: int, vals: Seq<i32>, target: int) -> RollResult {
    RollResult {
        success: count_above(vals, target) > 0,
        catastrophic_fail: count_ones(vals) == rolls,
        successes: count_above(vals, target) as i32,
    }
}

/// The outcome of a pool of `rolls` dice against `target` whose draws, in
/// order, begin with `ds`; `None` when `ds` ends before the pool does.
pub open spec fn resolve_spec(rolls: int, ds: Seq<i32>, target: int) -> Option<RollResult> {
    match pool_from(ds, 0, pool_len(rolls)) {
        Some((vals, _)) => Some(tally_of(rolls, vals, target)),
        None => None,
    }
}

/// `r` is an outcome that a pool of `rolls` dice can give against `target`.
pub open spec fn possible_roll(r: RollResult, rolls: int, target: int) -> bool {
    exists|vals: Seq<i32>| #[trigger] is_pool(vals, rolls) && tallies(r, rolls, vals, target)
}

proof fn lemma_count_above_bound(vals: Seq<i32>, target: int)
    ensures
        count_above(vals, target) <= vals.len(),
    decreases vals.len(),
{
    if vals.len() > 0 {
        lemma_count_above_bound(vals.drop_last(), target);
    }
}

proof fn lemma_count_ones_full(vals: Seq<i32>)
    ensures
        count_ones(vals) <= vals.len(),
        count_ones(vals) == vals.len() <==> forall|i: int| 0 <= i < vals.len() ==> vals[i] == 1,
    decreases vals.len(),
{
    if vals.len() > 0 {
        let t = vals.drop_last();
        lemma_count_ones_full(t);
        if count_ones(vals) == vals.len() {
            assert forall|i: int| 0 <= i < vals.len() implies vals[i] == 1 by {
                if i < vals.len() - 1 {
                    assert(vals[i] == t[i]);
                }
            }
        }
        if forall|i: int| 0 <= i < vals.len() ==> vals[i] == 1 {
            assert forall|i: int| 0 <= i < t.len() implies t[i] == 1 by {
                assert(t[i] == vals[i]);
            }
        }
    }
}

proof fn lemma_count_above_ones(vals: Seq<i32>, target: int)
    requires
        forall|i: int| 0 <= i < vals.len() ==> vals[i] == 1,
    ensures
        count_above(vals, target) == if 1 > target { vals.len() } else { 0 },
    decreases vals.len(),
{
    if vals.len() > 0 {
        let t = vals.drop_last();
        assert forall|i: int| 0 <= i < t.len() implies t[i] == 1 by {
            assert(t[i] == vals[i]);
        }
        lemma_count_above_ones(t, target);
    }
}

proof fn lemma_chain_exceeds(ds: Seq<i32>, i: int, acc: int)
    requires
        all_faces(ds),
        chain(ds, i, acc) is Some,
    ensures
        match chain(ds, i, acc) {
            Some((v, _)) => v >= acc + 1,
            None => false,
        },
    decreases ds.len() - i,
{
    if draws_again(ds[i] as int, acc + ds[i]) {
        lemma_chain_exceeds(ds, i + 1, acc + ds[i]);
    }
}

proof fn lemma_explosion_at_least_seven(v: int)
    requires
        is_exploded(v),
    ensures
        v >= 7,
{
    let s = choose|s: Seq<i32>| #[trigger] is_slot_of(s, v) && s[0] == 6;
    lemma_chain_exceeds(s, 1, 6);
}

/// The draws `s` were made one by one, each six with room left asking for
/// the next, and the last one ended the slot.
spec fn drawn_as_slot(s: Seq<i32>) -> bool {
    &&& s.len() >= 1
    &&& all_faces(s)
    &&& forall|i: int| 0 <= i < s.len() - 1 ==> draws_again(#[trigger] s[i] as int, total(s.take(i + 1)))
    &&& !draws_again(s.last() as int, total(s))
}

proof fn lemma_total_take(s: Seq<i32>, i: int)
    requires
        0 <= i < s.len(),
    ensures
        total(s.take(i + 1)) == total(s.take(i)) + s[i],
{
    assert(s.take(i + 1).drop_last() == s.take(i));
}

proof fn lemma_chain_of_drawn(s: Seq<i32>, i: int)
    requires
        drawn_as_slot(s),
        0 <= i < s.len(),
    ensures
        chain(s, i, total(s.take(i))) == Some((total(s), s.len() as int)),
    decreases s.len() - i,
{
    lemma_total_take(s, i);
    if i < s.len() - 1 {
        assert(draws_again(s[i] as int, total(s.take(i + 1))));
        lemma_chain_of_drawn(s, i + 1);
    } else {
        assert(s.take(i + 1) == s);
    }
}

/// Draws made one by one as a slot asks for them form that slot.
proof fn lemma_drawn_is_slot(s: Seq<i32>)
    requires
        drawn_as_slot(s),
    ensures
        is_slot_of(s, total(s)),
{
    assert(s.take(0) == Seq::<i32>::empty());
    lemma_chain_of_drawn(s, 0);
}

proof fn lemma_pool_of_ones(ds: Seq<i32>, start: int, n: nat)
    requires
        forall|i: int| 0 <= i < ds.len() ==> ds[i] == 1,
        0 <= start,
        start + n <= ds.len(),
    ensures
        pool_from(ds, start, n) == Some((ds.subrange(start, start + n), start + n)),
    decreases n,
{
    if n == 0 {
        assert(ds.subrange(start, start) == Seq::<i32>::empty());
    } else {
        assert(slot_at(ds, start) == Some((1int, start + 1)));
        lemma_pool_of_ones(ds, start + 1, (n - 1) as nat);
        assert(seq![1i32] + ds.subrange(start + 1, start + n) == ds.subrange(start, start + n));
    }
}

proof fn lemma_glue(vals: Seq<i32>, v: i32, rest: Seq<i32>)
    ensures
        vals + (seq![v] + rest) == vals.push(v) + rest,
{
    assert(vals + (seq![v] + rest) =~= vals.push(v) + rest);
}

/// A pool of at least one die fails catastrophically exactly when every die
/// of the pool came up one; an exploded die is never a one.
pub proof fn lemma_catastrophic_iff_all_ones(r: RollResult, rolls: int, vals: Seq<i32>, target: int)
    requires
        rolls >= 1,
        is_pool(vals, rolls),
        tallies(r, rolls, vals, target),
    ensures
        r.catastrophic_fail <==> forall|i: int| 0 <= i < vals.len() ==> vals[i] == 1,
        forall|i: int| 0 <= i < vals.len() && is_exploded(vals[i] as int) ==> vals[i] != 1,
{
    lemma_count_ones_full(vals);
    assert forall|i: int| 0 <= i < vals.len() && is_exploded(vals[i] as int) implies vals[i] != 1 by {
        lemma_explosion_at_least_seven(vals[i] as int);
    }
}

/// Draws of nothing but ones, one per die of a pool of at least one die,
/// always give the same outcome: a catastrophic failure, with every die a
/// success only against a target below one.
pub proof fn lemma_all_ones_catastrophic(rolls: int, ds: Seq<i32>, target: int)
    requires
        rolls >= 1,
        ds.len() == rolls,
        forall|i: int| 0 <= i < ds.len() ==> ds[i] == 1,
    ensures
        resolve_spec(rolls, ds, target) == Some(tally_of(rolls, ds, target)),
        tally_of(rolls, ds, target).catastrophic_fail,
        count_above(ds, target) == if target < 1 { rolls } else { 0 },
{
    lemma_pool_of_ones(ds, 0, rolls as nat);
    assert(ds.subrange(0, rolls) == ds);
    lemma_count_ones_full(ds);
    lemma_count_above_ones(ds, target);
}

/// Relies on rand::thread_rng and rand::Rng::gen_range: a uniform draw from
/// the inclusive range one to six. The range is not empty, so `gen_range`
/// does not panic; `thread_rng` panics only when the operating system gives
/// it no entropy, at its first seeding or at a later reseeding, which
/// nothing here can rule out.
#[verifier::external_body]
fn draw_d6() -> (r: i32)
    ensures
        is_face(r as int),
{
    rand::thread_rng().gen_range(1..=6)
}

/// One draw of a slot: adds `draw` to the running `result`, and says whether
/// the slot asks for another draw.
pub fn explode_step(result: i32, draw: i32) -> (r: (i32, bool))
    requires
        result <= i32::MAX - 6,
        is_face(draw as int),
    ensures
        r.0 == result + draw,
        r.1 == draws_again(draw as int, r.0 as int),
{
    let next = result + draw;
    (next, draw == 6 && next <= i32::MAX - 6)
}

/// Reads the slot that starts at index `start` of `draws`: its value and the
/// index after its last draw, or `None` when `draws` ends first.
pub fn slot_value(draws: &Vec<i32>, start: usize) -> (r: Option<(i32, usize)>)
    requires
        all_faces(draws@),
    ensures
        match r {
            Some((v, e)) => slot_at(draws@, start as int) == Some((v as int, e as int)),
            None => slot_at(draws@, start as int) is None,
        },
{
    let mut result: i32 = 0;
    let mut i: usize = start;
    loop
        invariant
            all_faces(draws@),
            start <= i,
            0 <= result <= i32::MAX - 6,
            slot_at(draws@, start as int) == chain(draws@, i as int, result as int),
        decreases draws@.len() - i,
    {
        if i >= draws.len() {
            return None;
        }
        let (next, again) = explode_step(result, draws[i]);
        i = i + 1;
        if !again {
            return Some((next, i));
        }
        result = next;
    }
}

/// The sum of `draws`.
pub fn sum_draws(draws: &Vec<i32>) -> (r: i32)
    requires
        all_faces(draws@),
        draws@.len() <= i32::MAX / 6,
    ensures
        r == total(draws@),
{
    let mut sum: i32 = 0;
    let mut i: usize = 0;
    while i < draws.len()
        invariant
            all_faces(draws@),
            draws@.len() <= i32::MAX / 6,
            i <= draws@.len(),
            sum == total(draws@.take(i as int)),
            0 <= sum <= 6 * i,
        decreases draws@.len() - i,
    {
        proof {
            lemma_total_take(draws@, i as int);
        }
        sum = sum + draws[i];
        i = i + 1;
    }
    assert(draws@.take(draws@.len() as int) == draws@);
    sum
}

/// Resolves a pool of `rolls` dice against `target` from its draws in
/// order: the slots are read one after another and then tallied. `None`
/// when the draws end before the pool does.
pub fn resolve_draws(rolls: i32, draws: &Vec<i32>, target: i32) -> (r: Option<RollResult>)
    requires
        all_faces(draws@),
    ensures
        r == resolve_spec(rolls as int, draws@, target as int),
{
    let ghost n = pool_len(rolls as int);
    let mut vals: Vec<i32> = Vec::new();
    let mut pos: usize = 0;
    let mut k: i32 = 0;
    while k < rolls
        invariant
            all_faces(draws@),
            n == pool_len(rolls as int),
            0 <= k,
            rolls >= 0 ==> k <= rolls,
            rolls < 0 ==> k == 0,
            vals@.len() == k,
            pool_from(draws@, 0, n) == match pool_from(draws@, pos as int, (n - k) as nat) {
                Some((rest, end)) => Some((vals@ + rest, end)),
                None => None,
            },
        decreases rolls - k,
    {
        match slot_value(draws, pos) {
            None => {
                return None;
            },
            Some((v, e)) => {
                proof {
                    match pool_from(draws@, e as int, (n - k - 1) as nat) {
                        Some((rest, end)) => {
                            lemma_glue(vals@, v, rest);
                        },
                        None => {},
                    }
                }
                vals.push(v);
                pos = e;
                k = k + 1;
            },
        }
    }
    assert(vals@ + Seq::<i32>::empty() == vals@);
    let r = RollResult::tally(rolls, &vals, target);
    proof {
        lemma_count_above_bound(vals@, target as int);
    }
    Some(r)
}

impl RollResult {
    /// Resolves a pool of `rolls` dice whose final values are `vals`
    /// against `target`: a die succeeds when it exceeds the target, and the
    /// pool fails catastrophically when its ones number `rolls`.
    pub fn tally(rolls: i32, vals: &Vec<i32>, target: i32) -> (r: RollResult)
        requires
            vals@.len() <= i32::MAX,
        ensures
            tallies(r, rolls as int, vals@, target as int),
            r == tally_of(rolls as int, vals@, target as int),
    {
        let mut successes: i32 = 0;
        let mut ones: i32 = 0;
        let mut i: usize = 0;
        while i < vals.len()
            invariant
                i <= vals@.len() <= i32::MAX,
                successes == count_above(vals@.take(i as int), target as int),
                ones == count_ones(vals@.take(i as int)),
            decreases vals@.len() - i,
        {
            let v = vals[i];
            proof {
                let s = vals@.take(i as int + 1);
                assert(s.drop_last() == vals@.take(i as int));
                lemma_count_above_bound(s, target as int);
                lemma_count_ones_full(s);
            }
            if v == 1 {
                ones = ones + 1;
            }
            if v > target {
                successes = successes + 1;
            }
            i = i + 1;
        }
        assert(vals@.take(vals@.len() as int) == vals@);
        RollResult { success: successes > 0, catastrophic_fail: ones == rolls, successes }
    }
}

/// A source of six-sided dice. Only `d6` draws; everything else is built on
/// it, so a replacement source needs to give only that.
pub trait Roller: Sized {
    /// A roller; `verbose` asks its user to report each roll.
    fn new(verbose: bool) -> Self;

    /// Whether rolls are to be reported.
    fn verbose(&self) -> bool;

    /// The sum of `rolls` dice.
    fn nd6(&self, rolls: i32) -> (r: i32)
        requires
            rolls <= i32::MAX / 6,
        ensures
            is_sum_of_dice(r as int, rolls as int),
    {
        let mut draws: Vec<i32> = Vec::new();
        let mut i: i32 = 0;
        while i < rolls
            invariant
                rolls <= i32::MAX / 6,
                0 <= i,
                rolls >= 0 ==> i <= rolls,
                rolls < 0 ==> i == 0,
                are_faces(draws@, i as nat),
            decreases rolls - i,
        {
            let d = self.d6();
            draws.push(d);
            i = i + 1;
        }
        assert(are_faces(draws@, pool_len(rolls as int)));
        sum_draws(&draws)
    }

    /// The value of a die that came up six: six plus a fresh draw, again and
    /// again for as long as sixes come up.
    fn explode(&self) -> (r: i32)
        ensures
            is_exploded(r as int),
    {
        let mut result: i32 = 6;
        let mut again = true;
        let ghost mut s: Seq<i32> = seq![6i32];
        assert(s.drop_last() == Seq::<i32>::empty());
        assert(total(Seq::<i32>::empty()) == 0);
        while again
            invariant
                s.len() >= 1,
                s[0] == 6,
                all_faces(s),
                forall|i: int| 0 <= i < s.len() - 1 ==> draws_again(#[trigger] s[i] as int, total(s.take(i + 1))),
                result == total(s),
                again == draws_again(s.last() as int, total(s)),
                0 <= result <= i32::MAX,
            decreases i32::MAX - result,
        {
            let draw = self.d6();
            let (next, more) = explode_step(result, draw);
            proof {
                let prev = s;
                s = s.push(draw);
                assert(s.drop_last() == prev);
                assert(s.take(prev.len() as int) == prev);
                assert forall|i: int| 0 <= i < s.len() - 1 implies draws_again(#[trigger] s[i] as int, total(s.take(i + 1))) by {
                    if i < prev.len() - 1 {
                        assert(s.take(i + 1) == prev.take(i + 1));
                    }
                }
            }
            result = next;
            again = more;
        }
        proof {
            lemma_drawn_is_slot(s);
        }
        result
    }

    /// One six-sided die.
    fn d6(&self) -> (r: i32)
        ensures
            is_face(r as int),
    {
        draw_d6()
    }

    /// Rolls a pool of `rolls` dice against `target`. A six explodes before
    /// it is compared; a die succeeds when it exceeds the target.
    fn roll(&self, rolls: i32, target: i32) -> (r: RollResult)
        ensures
            possible_roll(r, rolls as int, target as int),
            0 <= r.successes <= pool_len(rolls as int),
            r.success == (r.successes > 0),
    {
        let mut vals: Vec<i32> = Vec::new();
        let mut i: i32 = 0;
        while i < rolls
            invariant
                0 <= i,
                rolls >= 0 ==> i <= rolls,
                rolls < 0 ==> i == 0,
                vals@.len() == i,
                forall|j: int| 0 <= j < vals@.len() ==> is_die_value(#[trigger] vals@[j] as int),
            decreases rolls - i,
        {
            let first = self.d6();
            let (value, again) = explode_step(0, first);
            let result = if again {
                self.explode()
            } else {
                proof {
                    let s = seq![first];
                    assert(s.drop_last() == Seq::<i32>::empty());
                    assert(total(Seq::<i32>::empty()) == 0);
                    assert(drawn_as_slot(s));
                    lemma_drawn_is_slot(s);
                }
                value
            };
            vals.push(result);
            i = i + 1;
        }
        let r = RollResult::tally(rolls, &vals, target);
        proof {
            assert(is_pool(vals@, rolls as int));
            lemma_count_above_bound(vals@, target as int);
        }
        r
    }
}

/// The roller that draws from the thread-local random generator.
#[derive(Debug)]
pub struct DefaultRoller {
    verbose: bool,
}

impl Roller for DefaultRoller {
    fn new(verbose: bool) -> Self {
        DefaultRoller { verbose }
    }

    fn verbose(&self) -> bool {
        self.verbose
    }
}

} // verus!
