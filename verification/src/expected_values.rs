//! The backward-induction expected-value table.
//!
//! Cell `(turn, die_value)` holds the value of the game state in which
//! `turn` turns remain and the die shows `die_value`, assuming optimal play
//! from that state on: the maximum of banking the face now and the average
//! value of the states one reroll leads to. Values are integers scaled by
//! `EV_SCALE`, so a cell holding `v` stands for the exact rational
//! `v / EV_SCALE` (rounded down once per table row by the division).

use vstd::arithmetic::div_mod::{
    lemma_div_by_multiple, lemma_div_is_ordered, lemma_div_of0, lemma_div_pos_is_pos,
};
use vstd::arithmetic::mul::{
    lemma_mul_inequality, lemma_mul_is_distributive_sub_other_way, lemma_mul_left_inequality,
    lemma_mul_nonnegative,
};
use vstd::prelude::*;

verus! {

/// Fixed-point scale: every stored expected value is the mathematical
/// value multiplied by this constant (2^20) and rounded down.
pub const EV_SCALE: u64 = 1048576;

/// Sum over the faces `1..=d` of `max(face * EV_SCALE, a)`: the total value
/// of one row of the table whose reroll value is `a`, up to face `d`.
pub open spec fn sum_capped(a: int, d: nat) -> int
    decreases d,
{
    if d == 0 {
        0
    } else {
        sum_capped(a, (d - 1) as nat) + vstd::math::max(d * EV_SCALE, a)
    }
}

/// The scaled expected value of choosing to reroll when `turn` turns remain
/// (out of `num_turns`), before the new face is seen: the average of the
/// row one turn later, rounded down. Zero when at most one turn remains,
/// since the row after the last turn is all zeros.
pub open spec fn reroll_value(num_turns: nat, num_sides: nat, turn: nat) -> int
    decreases num_turns - turn,
{
    if turn + 1 >= num_turns {
        0
    } else {
        sum_capped(reroll_value(num_turns, num_sides, (turn + 1) as nat), num_sides)
            / (num_sides as int)
    }
}

/// The scaled value of one table cell: the better of banking the face now
/// and rerolling. Rows at or past `num_turns` are terminal and hold zero.
pub open spec fn table_cell(num_turns: nat, num_sides: nat, turn: nat, die_value: nat) -> int {
    if turn >= num_turns {
        0
    } else {
        vstd::math::max(die_value * EV_SCALE, reroll_value(num_turns, num_sides, turn))
    }
}

/// Partial sum of one row of the mathematical table over faces `1..=d`.
pub open spec fn row_cells_sum(num_turns: nat, num_sides: nat, turn: nat, d: nat) -> int
    decreases d,
{
    if d == 0 {
        0
    } else {
        row_cells_sum(num_turns, num_sides, turn, (d - 1) as nat) + table_cell(
            num_turns,
            num_sides,
            turn,
            d,
        )
    }
}

/// Sum of the entries of `row` at indices `lo..hi`.
pub open spec fn row_sum_range(row: Seq<u64>, lo: int, hi: int) -> int
    decreases hi - lo,
{
    if lo >= hi {
        0
    } else {
        row[lo] + row_sum_range(row, lo + 1, hi)
    }
}

proof fn lemma_row_sum_range_step(row: Seq<u64>, lo: int, i: int)
    requires
        lo <= i,
    ensures
        row_sum_range(row, lo, i + 1) == row_sum_range(row, lo, i) + row[i],
    decreases i - lo,
{
    if lo < i {
        lemma_row_sum_range_step(row, lo + 1, i);
    } else {
        assert(row_sum_range(row, i + 1, i + 1) == 0);
    }
}

/// Every term of `sum_capped` lies between 0 and `bound`, so the whole sum
/// lies between 0 and `d * bound`.
proof fn lemma_sum_capped_bounds(a: int, d: nat, bound: int)
    requires
        0 <= a <= bound,
        d * EV_SCALE <= bound,
    ensures
        0 <= sum_capped(a, d) <= d * bound,
    decreases d,
{
    if d == 0 {
    } else {
        assert(((d - 1) as nat) * EV_SCALE <= d * EV_SCALE) by {
            lemma_mul_inequality(d - 1, d as int, EV_SCALE as int);
        }
        lemma_sum_capped_bounds(a, (d - 1) as nat, bound);
        assert((d - 1) * bound + bound == d * bound) by {
            lemma_mul_is_distributive_sub_other_way(bound, d as int, 1);
        }
    }
}

/// The value of a reroll is never negative and never exceeds the scaled
/// maximum face.
proof fn lemma_reroll_bounds(num_turns: nat, num_sides: nat, turn: nat)
    requires
        num_sides >= 1,
    ensures
        0 <= reroll_value(num_turns, num_sides, turn) <= num_sides * EV_SCALE,
    decreases num_turns - turn,
{
    lemma_mul_nonnegative(num_sides as int, EV_SCALE as int);
    if turn + 1 < num_turns {
        lemma_reroll_bounds(num_turns, num_sides, (turn + 1) as nat);
        let a = reroll_value(num_turns, num_sides, (turn + 1) as nat);
        let bound = num_sides * EV_SCALE;
        let s = sum_capped(a, num_sides);
        lemma_sum_capped_bounds(a, num_sides, bound);
        lemma_div_is_ordered(s, num_sides * bound, num_sides as int);
        assert(num_sides * bound == bound * num_sides);
        lemma_div_by_multiple(bound, num_sides as int);
        lemma_div_pos_is_pos(s, num_sides as int);
    }
}

/// Rerolling never looks worse than the current face: every in-range cell
/// is at least the face's own scaled value, and at most the scaled maximum
/// face.
pub proof fn lemma_cell_bounds(num_turns: nat, num_sides: nat, turn: nat, die_value: nat)
    requires
        num_sides >= 1,
        1 <= die_value <= num_sides,
        turn < num_turns,
    ensures
        die_value * EV_SCALE <= table_cell(num_turns, num_sides, turn, die_value),
        table_cell(num_turns, num_sides, turn, die_value) <= num_sides * EV_SCALE,
{
    lemma_reroll_bounds(num_turns, num_sides, turn);
    lemma_mul_inequality(die_value as int, num_sides as int, EV_SCALE as int);
}

/// A row of the mathematical table sums to `sum_capped` of its reroll value.
proof fn lemma_row_sum_form(num_turns: nat, num_sides: nat, turn: nat, d: nat)
    ensures
        row_cells_sum(num_turns, num_sides, turn, d) == if turn >= num_turns {
            0int
        } else {
            sum_capped(reroll_value(num_turns, num_sides, turn), d)
        },
    decreases d,
{
    if d > 0 {
        lemma_row_sum_form(num_turns, num_sides, turn, (d - 1) as nat);
    }
}

/// The reroll value at `turn` is the rounded-down average of the row one
/// turn later.
proof fn lemma_reroll_unfold(num_turns: nat, num_sides: nat, turn: nat)
    requires
        num_sides >= 1,
        turn < num_turns,
    ensures
        reroll_value(num_turns, num_sides, turn) == row_cells_sum(
            num_turns,
            num_sides,
            (turn + 1) as nat,
            num_sides,
        ) / (num_sides as int),
{
    lemma_row_sum_form(num_turns, num_sides, (turn + 1) as nat, num_sides);
    if turn + 1 >= num_turns {
        lemma_div_of0(num_sides as int);
    }
}

/// With one decision left the reroll value is zero, so the cell holds the
/// face value itself.
pub proof fn lemma_value_at_last_decision(num_turns: nat, num_sides: nat, die_value: nat)
    requires
        num_sides >= 1,
        num_turns >= 1,
        1 <= die_value <= num_sides,
    ensures
        table_cell(num_turns, num_sides, (num_turns - 1) as nat, die_value) == die_value
            * EV_SCALE,
{
    lemma_mul_nonnegative(die_value as int, EV_SCALE as int);
}

proof fn lemma_sum_capped_zero(d: nat)
    ensures
        sum_capped(0, d) == d * (d + 1) * 524288,
    decreases d,
{
    if d == 0 {
    } else {
        let p = (d - 1) as nat;
        lemma_sum_capped_zero(p);
        lemma_mul_nonnegative(d as int, EV_SCALE as int);
        assert(sum_capped(0, d) == p * (p + 1) * 524288 + d * EV_SCALE);
        assert(p * (p + 1) * 524288 + d * 1048576 == d * (d + 1) * 524288) by (nonlinear_arith)
            requires
                p == d - 1,
                d >= 1,
        ;
    }
}

/// Two decisions from the end the reroll value is the plain average of the
/// faces, so the cell is the larger of the face and `(num_sides + 1) / 2`,
/// both scaled.
pub proof fn lemma_value_two_from_end(num_turns: nat, num_sides: nat, die_value: nat)
    requires
        num_sides >= 1,
        num_turns >= 2,
        1 <= die_value <= num_sides,
    ensures
        table_cell(num_turns, num_sides, (num_turns - 2) as nat, die_value) == vstd::math::max(
            die_value * EV_SCALE,
            ((num_sides + 1) * EV_SCALE) / 2,
        ),
{
    let n = num_sides as int;
    let turn = (num_turns - 2) as nat;
    assert(reroll_value(num_turns, num_sides, (num_turns - 1) as nat) == 0);
    assert(reroll_value(num_turns, num_sides, turn) == sum_capped(0, num_sides) / n);
    lemma_sum_capped_zero(num_sides);
    assert(n * (n + 1) * 524288 == ((n + 1) * 524288) * n) by (nonlinear_arith);
    lemma_mul_nonnegative(n + 1, 524288);
    lemma_div_by_multiple((n + 1) * 524288, n);
    assert((n + 1) * 1048576 == ((n + 1) * 524288) * 2) by (nonlinear_arith);
    lemma_div_by_multiple((n + 1) * 524288, 2);
}

pub struct ExpectedValues {
    values: Vec<Vec<u64>>,
    max_value: u32,
}

impl ExpectedValues {
    /// The table contents as a sequence of rows, one per turns-remaining level.
    pub closed spec fn grid(&self) -> Seq<Seq<u64>> {
        self.values@.map_values(|row: Vec<u64>| row@)
    }

    pub closed spec fn spec_num_sides(&self) -> nat {
        self.max_value as nat
    }

    pub open spec fn spec_num_turns(&self) -> nat {
        (self.grid().len() - 1) as nat
    }

    /// Shape invariant: one row per turns-remaining level `0..=num_turns`,
    /// each with one column per face `0..=num_sides`.
    pub open spec fn wf(&self) -> bool {
        &&& self.grid().len() >= 1
        &&& self.spec_num_sides() >= 1
        &&& forall|t: int|
            0 <= t < self.grid().len() ==> (#[trigger] self.grid()[t]).len()
                == self.spec_num_sides() + 1
    }

    /// Every consulted cell agrees with the mathematical table.
    pub open spec fn calculated(&self) -> bool {
        forall|t: int, d: int|
            0 <= t < self.grid().len() && 1 <= d <= self.spec_num_sides()
                ==> #[trigger] self.grid()[t][d] == table_cell(
                self.spec_num_turns(),
                self.spec_num_sides(),
                t as nat,
                d as nat,
            )
    }

    /// Allocates a `(num_turns + 1) x (num_sides + 1)` grid of zeros.
    #[verifier::loop_isolation(false)]
    pub fn new(num_turns: usize, num_sides: u32) -> (r: ExpectedValues)
        requires
            num_sides >= 1,
            num_turns < usize::MAX,
            num_sides + 1 <= usize::MAX,
        ensures
            r.wf(),
            r.spec_num_turns() == num_turns,
            r.spec_num_sides() == num_sides,
            forall|t: int, d: int|
                0 <= t <= num_turns && 0 <= d <= num_sides ==> #[trigger] r.grid()[t][d] == 0,
    {
        let cols: usize = num_sides as usize + 1;
        let mut values: Vec<Vec<u64>> = Vec::new();
        let mut t: usize = 0;
        while t < num_turns + 1
            invariant
                t <= num_turns + 1,
                values@.len() == t,
                forall|i: int|
                    0 <= i < t ==> (#[trigger] values@[i])@ =~= Seq::<u64>::new(
                        num_sides as nat + 1,
                        |j: int| 0u64,
                    ),
            decreases num_turns + 1 - t,
        {
            let mut row: Vec<u64> = Vec::new();
            let mut d: usize = 0;
            while d < cols
                invariant
                    d <= cols,
                    cols == num_sides + 1,
                    row@.len() == d,
                    forall|j: int| 0 <= j < d ==> row@[j] == 0u64,
                decreases cols - d,
            {
                row.push(0u64);
                d = d + 1;
            }
            assert(row@ =~= Seq::<u64>::new(num_sides as nat + 1, |j: int| 0u64));
            values.push(row);
            t = t + 1;
        }
        let r = ExpectedValues { values, max_value: num_sides };
        assert(r.grid().len() == num_turns + 1);
        assert forall|t: int, d: int|
            0 <= t <= num_turns && 0 <= d <= num_sides implies #[trigger] r.grid()[t][d]
            == 0 by {
            assert(r.grid()[t] =~= Seq::<u64>::new(num_sides as nat + 1, |j: int| 0u64));
        }
        r
    }

    /// Fills the grid by backward induction: for each turns-remaining level
    /// below the terminal one, every cell becomes the larger of its face
    /// value and the rounded-down average of the level one turn later, all
    /// scaled by `EV_SCALE`. The terminal level must still be all zeros.
    #[verifier::loop_isolation(false)]
    pub fn calculate(&mut self)
        requires
            old(self).wf(),
            forall|d: int|
                1 <= d <= old(self).spec_num_sides() ==> #[trigger] old(self).grid()[old(
                    self,
                ).spec_num_turns() as int][d] == 0,
        ensures
            final(self).wf(),
            final(self).spec_num_turns() == old(self).spec_num_turns(),
            final(self).spec_num_sides() == old(self).spec_num_sides(),
            final(self).calculated(),
    {
        let num_turns: usize = self.values.len() - 1;
        let num_sides: u32 = self.max_value;
        let ghost nt = num_turns as nat;
        let ghost n = num_sides as nat;
        proof {
            assert(self.grid()[nt as int][0] == self.values@[nt as int]@[0]);
        }
        let mut turn: usize = num_turns;
        while turn > 0
            invariant
                self.wf(),
                self.spec_num_turns() == nt,
                self.spec_num_sides() == n,
                turn <= num_turns,
                forall|t: int, d: int|
                    turn <= t <= num_turns && 1 <= d <= n ==> #[trigger] self.grid()[t][d]
                        == table_cell(nt, n, t as nat, d as nat),
            decreases turn,
        {
            turn = turn - 1;
            let ghost prev_grid = self.grid();

            // Average the row one turn later, in a wide accumulator.
            proof {
                assert(self.values@.len() == self.grid().len());
                assert(self.values@[turn as int + 1]@ == self.grid()[turn as int + 1]);
            }
            let cols: usize = self.values[turn + 1].len();
            let mut sum: u128 = 0;
            let mut d: usize = 1;
            while d < cols
                invariant
                    1 <= d <= cols,
                    cols == n + 1,
                    sum == row_cells_sum(nt, n, (turn + 1) as nat, (d - 1) as nat),
                    sum <= (d - 1) * (n * EV_SCALE),
                decreases cols - d,
            {
                proof {
                    assert(self.values@[turn as int + 1]@ == self.grid()[turn as int + 1]);
                }
                let cell: u64 = self.values[turn + 1][d];
                proof {
                    assert(cell == self.grid()[turn + 1][d as int]);
                    assert(cell == table_cell(nt, n, (turn + 1) as nat, d as nat));
                    if ((turn + 1) as nat) < nt {
                        lemma_cell_bounds(nt, n, (turn + 1) as nat, d as nat);
                    } else {
                        lemma_mul_nonnegative(n as int, EV_SCALE as int);
                    }
                    assert((d - 1) * (n * EV_SCALE) + (n * EV_SCALE) == d * (n * EV_SCALE)) by {
                        lemma_mul_is_distributive_sub_other_way(n * EV_SCALE, d as int, 1);
                    }
                    assert(d * (n * EV_SCALE) <= u32::MAX * (n * EV_SCALE)) by {
                        lemma_mul_nonnegative(n as int, EV_SCALE as int);
                        lemma_mul_inequality(d as int, u32::MAX as int, n * EV_SCALE);
                    }
                    assert(n * EV_SCALE <= u32::MAX * EV_SCALE) by {
                        lemma_mul_inequality(n as int, u32::MAX as int, EV_SCALE as int);
                    }
                    assert(u32::MAX * (n * EV_SCALE) <= u32::MAX * (u32::MAX * EV_SCALE)) by {
                        lemma_mul_left_inequality(
                            u32::MAX as int,
                            n * EV_SCALE,
                            u32::MAX * EV_SCALE,
                        );
                    }
                }
                sum = sum + cell as u128;
                d = d + 1;
            }

            // The rounded-down average is the value of a reroll here.
            let ev: u64 = (sum / (num_sides as u128)) as u64;
            proof {
                lemma_reroll_unfold(nt, n, turn as nat);
                lemma_reroll_bounds(nt, n, turn as nat);
                lemma_div_pos_is_pos(sum as int, num_sides as int);
                assert(n * EV_SCALE <= u32::MAX * EV_SCALE) by {
                    lemma_mul_inequality(n as int, u32::MAX as int, EV_SCALE as int);
                }
                assert(ev == reroll_value(nt, n, turn as nat));
            }

            // Rebuild this turn's row: face value or reroll, whichever is larger.
            let mut row: Vec<u64> = Vec::new();
            row.push(0u64);
            let mut d: usize = 1;
            while d < cols
                invariant
                    1 <= d <= cols,
                    row@.len() == d,
                    row@[0] == 0,
                    ev == reroll_value(nt, n, turn as nat),
                    ev <= n * EV_SCALE,
                    forall|j: int|
                        1 <= j < d ==> #[trigger] row@[j] == table_cell(nt, n, turn as nat, j as nat),
                decreases cols - d,
            {
                proof {
                    assert(d * EV_SCALE <= u32::MAX * EV_SCALE) by {
                        lemma_mul_inequality(d as int, u32::MAX as int, EV_SCALE as int);
                    }
                }
                let face: u64 = (d as u64) * EV_SCALE;
                let cell: u64 = if face > ev {
                    face
                } else {
                    ev
                };
                row.push(cell);
                d = d + 1;
            }
            let ghost row_snapshot = row@;
            self.values.set(turn, row);
            proof {
                assert(self.grid() =~= prev_grid.update(turn as int, row_snapshot));
                assert forall|t: int, d: int|
                    turn <= t <= num_turns && 1 <= d <= n implies #[trigger] self.grid()[t][d]
                    == table_cell(nt, n, t as nat, d as nat) by {
                    if t != turn {
                        assert(self.grid()[t] == prev_grid[t]);
                    }
                }
            }
        }
    }

    /// Reads the scaled value stored for `turn` turns remaining and the die
    /// showing `die_value`.
    pub fn get(&self, turn: usize, die_value: u32) -> (r: u64)
        requires
            self.wf(),
            turn <= self.spec_num_turns(),
            1 <= die_value <= self.spec_num_sides(),
        ensures
            r == self.grid()[turn as int][die_value as int],
            self.calculated() ==> r == table_cell(
                self.spec_num_turns(),
                self.spec_num_sides(),
                turn as nat,
                die_value as nat,
            ),
    {
        proof {
            assert(self.values@[turn as int]@.len() == self.grid()[turn as int].len());
        }
        self.values[turn][die_value as usize]
    }

    /// Sums the stored values at this turn for every face strictly above
    /// `die_value`, up to the maximum face.
    #[verifier::loop_isolation(false)]
    pub fn get_ev_sum(&self, turn: usize, die_value: u32) -> (r: u128)
        requires
            self.wf(),
            turn <= self.spec_num_turns(),
            die_value <= self.spec_num_sides(),
        ensures
            r == row_sum_range(
                self.grid()[turn as int],
                die_value + 1,
                self.spec_num_sides() as int + 1,
            ),
    {
        let ghost row = self.grid()[turn as int];
        proof {
            assert(self.values@.len() == self.grid().len());
            assert(self.values@[turn as int]@ == row);
        }
        let stop: usize = self.values[turn].len();
        let mut sum: u128 = 0;
        let mut i: usize = die_value as usize + 1;
        while i < stop
            invariant
                die_value + 1 <= i <= stop,
                sum == row_sum_range(row, die_value + 1, i as int),
                sum <= (i - die_value - 1) * (u64::MAX as int),
            decreases stop - i,
        {
            let cell: u64 = self.values[turn][i];
            proof {
                assert(cell == row[i as int]);
                lemma_row_sum_range_step(row, die_value + 1, i as int);
                assert((i - die_value - 1) * (u64::MAX as int) + u64::MAX as int == (i + 1
                    - die_value - 1) * (u64::MAX as int)) by {
                    lemma_mul_is_distributive_sub_other_way(
                        u64::MAX as int,
                        i + 1 - die_value - 1,
                        1,
                    );
                }
                assert((i + 1 - die_value - 1) * (u64::MAX as int) <= (u32::MAX as int + 1) * (
                u64::MAX as int)) by {
                    lemma_mul_inequality(
                        i + 1 - die_value - 1,
                        u32::MAX as int + 1,
                        u64::MAX as int,
                    );
                }
            }
            sum = sum + cell as u128;
            i = i + 1;
        }
        sum
    }
}

} // verus!
