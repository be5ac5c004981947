//! One playthrough of the dice game under a fixed decision strategy.
//!
//! A game has a fixed number of turns. On each turn the player either
//! rerolls the die or banks its current face value; either way one turn is
//! consumed, so every game ends after exactly `num_turns` steps. The
//! table-guided strategy rerolls whenever the expected-value table says a
//! reroll is strictly better than the face in hand; the maximum-face
//! strategy banks only when the die shows its highest face.

use crate::expected_values::{table_cell, ExpectedValues, EV_SCALE};
use crate::rng::{die_stream, SeededDie};
use vstd::arithmetic::mul::{lemma_mul_inequality, lemma_mul_is_distributive_add_other_way};
use vstd::prelude::*;

verus! {

/// The final bankroll of the table-guided strategy played to the end from
/// the given state: with `rolls` turns left, `bank` already banked, the die
/// showing `die`, and `count` rolls drawn so far from the seeded stream.
pub open spec fn strat1_run(
    num_turns: nat,
    num_sides: u32,
    seed: u64,
    rolls: nat,
    bank: int,
    die: u32,
    count: u64,
) -> int
    decreases rolls,
{
    if rolls == 0 {
        bank
    } else if table_cell(num_turns, num_sides as nat, rolls, die as nat) > die * EV_SCALE {
        strat1_run(
            num_turns,
            num_sides,
            seed,
            (rolls - 1) as nat,
            bank,
            die_stream(seed, num_sides, count),
            (count + 1) as u64,
        )
    } else {
        strat1_run(num_turns, num_sides, seed, (rolls - 1) as nat, bank + die, die, count)
    }
}

/// The final bankroll of the maximum-face strategy played to the end from
/// the given state: bank when the die shows the maximum face, reroll
/// otherwise.
pub open spec fn strat2_run(
    num_turns: nat,
    num_sides: u32,
    seed: u64,
    rolls: nat,
    bank: int,
    die: u32,
    count: u64,
) -> int
    decreases rolls,
{
    if rolls == 0 {
        bank
    } else if die == num_sides {
        strat2_run(num_turns, num_sides, seed, (rolls - 1) as nat, bank + die, die, count)
    } else {
        strat2_run(
            num_turns,
            num_sides,
            seed,
            (rolls - 1) as nat,
            bank,
            die_stream(seed, num_sides, count),
            (count + 1) as u64,
        )
    }
}

pub struct Game {
    seed: u64,
    num_sides: u32,
    num_turns: usize,
    rolls: usize,
    bankroll: i32,
    die_result: u32,
    expected_values: ExpectedValues,
    die: SeededDie,
}

impl Game {
    pub closed spec fn spec_seed(&self) -> u64 {
        self.seed
    }

    pub closed spec fn spec_num_sides(&self) -> u32 {
        self.num_sides
    }

    pub closed spec fn spec_num_turns(&self) -> usize {
        self.num_turns
    }

    pub closed spec fn spec_rolls(&self) -> usize {
        self.rolls
    }

    pub closed spec fn spec_bankroll(&self) -> i32 {
        self.bankroll
    }

    pub closed spec fn spec_die_result(&self) -> u32 {
        self.die_result
    }

    pub closed spec fn die_count(&self) -> u64 {
        self.die.spec_count()
    }

    /// The seeded die agrees with the game on its seed and its face count.
    pub closed spec fn die_matches(&self) -> bool {
        &&& self.die.spec_seed() == self.seed
        &&& self.die.spec_sides() == self.num_sides
    }

    pub closed spec fn table(&self) -> ExpectedValues {
        self.expected_values
    }

    /// Internal invariant: the table matches the game's parameters and is
    /// calculated, the die in hand shows a valid face, the banked total is
    /// within what the consumed turns allow, and the roll counter cannot
    /// overflow within the remaining turns.
    pub open spec fn wf(&self) -> bool {
        &&& self.table().wf()
        &&& self.table().calculated()
        &&& self.table().spec_num_turns() == self.spec_num_turns()
        &&& self.table().spec_num_sides() == self.spec_num_sides()
        &&& self.spec_num_sides() >= 1
        &&& self.spec_rolls() <= self.spec_num_turns()
        &&& 1 <= self.spec_die_result() <= self.spec_num_sides()
        &&& 0 <= self.spec_bankroll()
        &&& self.spec_bankroll() <= (self.spec_num_turns() - self.spec_rolls())
            * self.spec_num_sides()
        &&& self.spec_num_turns() * self.spec_num_sides() <= i32::MAX
        &&& self.die_matches()
        &&& self.die_count() + self.spec_rolls() <= u64::MAX
    }

    /// The bankroll the table-guided strategy ends with when played from
    /// this state.
    pub open spec fn strat1_result(&self) -> int {
        strat1_run(
            self.spec_num_turns() as nat,
            self.spec_num_sides(),
            self.spec_seed(),
            self.spec_rolls() as nat,
            self.spec_bankroll() as int,
            self.spec_die_result(),
            self.die_count(),
        )
    }

    /// The bankroll the maximum-face strategy ends with when played from
    /// this state.
    pub open spec fn strat2_result(&self) -> int {
        strat2_run(
            self.spec_num_turns() as nat,
            self.spec_num_sides(),
            self.spec_seed(),
            self.spec_rolls() as nat,
            self.spec_bankroll() as int,
            self.spec_die_result(),
            self.die_count(),
        )
    }

    /// Builds a fresh game: a calculated expected-value table, a die seeded
    /// with `seed`, all turns still to play, an empty bankroll, and the
    /// always-valid sentinel face 1 in hand.
    pub fn new(num_turns: usize, num_sides: u32, seed: u64) -> (r: Game)
        requires
            num_sides >= 1,
            num_turns < usize::MAX,
            num_sides + 1 <= usize::MAX,
            num_turns * num_sides <= i32::MAX,
        ensures
            r.wf(),
            r.spec_seed() == seed,
            r.spec_num_turns() == num_turns,
            r.spec_num_sides() == num_sides,
            r.spec_rolls() == num_turns,
            r.spec_bankroll() == 0,
            r.spec_die_result() == 1,
            r.die_count() == 0,
    {
        let mut expected_values = ExpectedValues::new(num_turns, num_sides);
        expected_values.calculate();
        let die = SeededDie::new(seed, num_sides);
        Game {
            seed,
            num_sides,
            num_turns,
            rolls: num_turns,
            bankroll: 0,
            die_result: 1,
            expected_values,
            die,
        }
    }

    /// The table-guided decision: reroll exactly when the table value of
    /// the current state strictly exceeds the face in hand.
    fn should_roll(&self) -> (r: bool)
        requires
            self.wf(),
        ensures
            r == (table_cell(
                self.spec_num_turns() as nat,
                self.spec_num_sides() as nat,
                self.spec_rolls() as nat,
                self.spec_die_result() as nat,
            ) > self.spec_die_result() * EV_SCALE),
    {
        let v = self.expected_values.get(self.rolls, self.die_result);
        proof {
            lemma_mul_inequality(
                self.spec_die_result() as int,
                u32::MAX as int,
                EV_SCALE as int,
            );
        }
        v > (self.die_result as u64) * EV_SCALE
    }

    /// Consumes one turn and draws a fresh face from the seeded stream.
    fn roll(&mut self)
        requires
            old(self).wf(),
            old(self).spec_rolls() >= 1,
        ensures
            final(self).wf(),
            final(self).spec_seed() == old(self).spec_seed(),
            final(self).spec_num_turns() == old(self).spec_num_turns(),
            final(self).spec_num_sides() == old(self).spec_num_sides(),
            final(self).spec_bankroll() == old(self).spec_bankroll(),
            final(self).spec_rolls() == old(self).spec_rolls() - 1,
            final(self).die_count() == old(self).die_count() + 1,
            final(self).spec_die_result() == die_stream(
                old(self).spec_seed(),
                old(self).spec_num_sides(),
                old(self).die_count(),
            ),
            final(self).table() == old(self).table(),
    {
        proof {
            let consumed = old(self).spec_num_turns() - old(self).spec_rolls();
            lemma_mul_inequality(
                consumed,
                consumed + 1,
                old(self).spec_num_sides() as int,
            );
        }
        self.rolls = self.rolls - 1;
        self.die_result = self.die.roll();
    }

    /// Consumes one turn and banks the face in hand.
    fn take(&mut self)
        requires
            old(self).wf(),
            old(self).spec_rolls() >= 1,
        ensures
            final(self).wf(),
            final(self).spec_seed() == old(self).spec_seed(),
            final(self).spec_num_turns() == old(self).spec_num_turns(),
            final(self).spec_num_sides() == old(self).spec_num_sides(),
            final(self).spec_bankroll() == old(self).spec_bankroll() + old(
                self,
            ).spec_die_result(),
            final(self).spec_rolls() == old(self).spec_rolls() - 1,
            final(self).die_count() == old(self).die_count(),
            final(self).spec_die_result() == old(self).spec_die_result(),
            final(self).table() == old(self).table(),
    {
        proof {
            let consumed = old(self).spec_num_turns() - old(self).spec_rolls();
            let n = old(self).spec_num_sides() as int;
            assert(consumed * n + n == (consumed + 1) * n) by {
                lemma_mul_is_distributive_add_other_way(n, consumed, 1);
            }
            lemma_mul_inequality(
                consumed + 1,
                old(self).spec_num_turns() as int,
                n,
            );
        }
        self.bankroll = self.bankroll + self.die_result as i32;
        self.rolls = self.rolls - 1;
    }

    /// Plays the table-guided strategy until no turns remain. The final
    /// bankroll is exactly the strategy's value on the starting state, so
    /// it is determined by the seed and the game parameters alone.
    #[verifier::loop_isolation(false)]
    pub fn game_loop(&mut self)
        requires
            old(self).wf(),
        ensures
            final(self).wf(),
            final(self).spec_rolls() == 0,
            final(self).spec_seed() == old(self).spec_seed(),
            final(self).spec_num_turns() == old(self).spec_num_turns(),
            final(self).spec_num_sides() == old(self).spec_num_sides(),
            final(self).spec_bankroll() == old(self).strat1_result(),
            final(self).spec_bankroll() >= old(self).spec_bankroll(),
    {
        while self.rolls > 0
            invariant
                self.wf(),
                self.spec_seed() == old(self).spec_seed(),
                self.spec_num_turns() == old(self).spec_num_turns(),
                self.spec_num_sides() == old(self).spec_num_sides(),
                self.spec_bankroll() >= old(self).spec_bankroll(),
                self.strat1_result() == old(self).strat1_result(),
            decreases self.rolls,
        {
            if self.should_roll() {
                self.roll();
            } else {
                self.take();
            }
        }
    }

    /// Plays the maximum-face strategy until no turns remain: reroll unless
    /// the die shows the maximum face, bank when it does. The final
    /// bankroll is exactly the strategy's value on the starting state.
    #[verifier::loop_isolation(false)]
    pub fn game_loop_twenty_only_strategy(&mut self)
        requires
            old(self).wf(),
        ensures
            final(self).wf(),
            final(self).spec_rolls() == 0,
            final(self).spec_seed() == old(self).spec_seed(),
            final(self).spec_num_turns() == old(self).spec_num_turns(),
            final(self).spec_num_sides() == old(self).spec_num_sides(),
            final(self).spec_bankroll() == old(self).strat2_result(),
            final(self).spec_bankroll() >= old(self).spec_bankroll(),
    {
        while self.rolls > 0
            invariant
                self.wf(),
                self.spec_seed() == old(self).spec_seed(),
                self.spec_num_turns() == old(self).spec_num_turns(),
                self.spec_num_sides() == old(self).spec_num_sides(),
                self.spec_bankroll() >= old(self).spec_bankroll(),
                self.strat2_result() == old(self).strat2_result(),
            decreases self.rolls,
        {
            if self.die_result == self.num_sides {
                self.take();
            } else {
                self.roll();
            }
        }
    }

    pub fn is_game_over(&self) -> (r: bool)
        ensures
            r == (self.spec_rolls() == 0),
    {
        self.rolls == 0
    }

    pub fn bankroll(&self) -> (r: i32)
        ensures
            r == self.spec_bankroll(),
    {
        self.bankroll
    }
}

/// A game as `Game::new` returns it: fresh for the given seed and
/// parameters, nothing rolled and nothing banked yet.
pub open spec fn fresh_game(g: Game, num_turns: usize, num_sides: u32, seed: u64) -> bool {
    &&& g.spec_seed() == seed
    &&& g.spec_num_turns() == num_turns
    &&& g.spec_num_sides() == num_sides
    &&& g.spec_rolls() == num_turns
    &&& g.spec_bankroll() == 0
    &&& g.spec_die_result() == 1
    &&& g.die_count() == 0
}

/// Law: playing a strategy never loses what is already banked, so a game
/// that starts from an empty bankroll ends with a bankroll of at least
/// zero.
pub proof fn lemma_strat1_bankroll_monotone(
    num_turns: nat,
    num_sides: u32,
    seed: u64,
    rolls: nat,
    bank: int,
    die: u32,
    count: u64,
)
    ensures
        strat1_run(num_turns, num_sides, seed, rolls, bank, die, count) >= bank,
    decreases rolls,
{
    if rolls > 0 {
        if table_cell(num_turns, num_sides as nat, rolls, die as nat) > die * EV_SCALE {
            lemma_strat1_bankroll_monotone(
                num_turns,
                num_sides,
                seed,
                (rolls - 1) as nat,
                bank,
                die_stream(seed, num_sides, count),
                (count + 1) as u64,
            );
        } else {
            lemma_strat1_bankroll_monotone(
                num_turns,
                num_sides,
                seed,
                (rolls - 1) as nat,
                bank + die,
                die,
                count,
            );
        }
    }
}

/// Law: the maximum-face strategy banks only the maximum face, so whatever
/// it adds to the starting bankroll is that face taken a whole number of
/// times, at most once per remaining turn.
pub proof fn lemma_strat2_banks_only_max(
    num_turns: nat,
    num_sides: u32,
    seed: u64,
    rolls: nat,
    bank: int,
    die: u32,
    count: u64,
)
    ensures
        exists|k: int|
            0 <= k <= rolls && strat2_run(num_turns, num_sides, seed, rolls, bank, die, count)
                == bank + #[trigger] (k * (num_sides as int)),
    decreases rolls,
{
    let n = num_sides as int;
    if rolls == 0 {
        assert(strat2_run(num_turns, num_sides, seed, rolls, bank, die, count) == bank + 0 * n);
    } else if die == num_sides {
        lemma_strat2_banks_only_max(
            num_turns,
            num_sides,
            seed,
            (rolls - 1) as nat,
            bank + die,
            die,
            count,
        );
        let k = choose|k: int|
            0 <= k <= rolls - 1 && strat2_run(
                num_turns,
                num_sides,
                seed,
                (rolls - 1) as nat,
                bank + die,
                die,
                count,
            ) == bank + die + #[trigger] (k * n);
        assert(bank + die + k * n == bank + (k + 1) * n) by {
            lemma_mul_is_distributive_add_other_way(n, k, 1);
        }
        assert(strat2_run(num_turns, num_sides, seed, rolls, bank, die, count) == bank + (k + 1)
            * n);
    } else {
        let die2 = die_stream(seed, num_sides, count);
        lemma_strat2_banks_only_max(
            num_turns,
            num_sides,
            seed,
            (rolls - 1) as nat,
            bank,
            die2,
            (count + 1) as u64,
        );
        let k = choose|k: int|
            0 <= k <= rolls - 1 && strat2_run(
                num_turns,
                num_sides,
                seed,
                (rolls - 1) as nat,
                bank,
                die2,
                (count + 1) as u64,
            ) == bank + #[trigger] (k * n);
        assert(strat2_run(num_turns, num_sides, seed, rolls, bank, die, count) == bank + k * n);
    }
}

/// Law: two games built fresh from the same seed and the same parameters
/// are reproducible: each strategy reaches the same final bankroll in both,
/// because that bankroll is a function of the seed and the parameters
/// alone.
pub proof fn lemma_same_seed_reproducible(
    g1: Game,
    g2: Game,
    num_turns: usize,
    num_sides: u32,
    seed: u64,
)
    requires
        fresh_game(g1, num_turns, num_sides, seed),
        fresh_game(g2, num_turns, num_sides, seed),
    ensures
        g1.strat1_result() == g2.strat1_result(),
        g1.strat2_result() == g2.strat2_result(),
{
}

} // verus!
