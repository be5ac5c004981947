//! Aggregation of paired simulation trials.
//!
//! Each trial draws one seed, plays both strategies on games built from
//! that same seed, and records the two final bankrolls. The aggregate
//! counts strict wins per strategy and sums the bankrolls; the report at
//! the end averages over the trials actually completed, which may be fewer
//! than requested when the run is interrupted between trials.

use crate::game::{strat1_run, strat2_run, Game};
use vstd::prelude::*;

verus! {

/// The faces of the die the simulation plays with.
pub const NUM_SIDES: u32 = 20;

/// The turns in one game of the simulation.
pub const NUM_TURNS: usize = 100;

/// The statistics of a sequence of trial outcomes, each outcome the pair
/// of final bankrolls (table-guided, maximum-face): the count of trials,
/// the strict wins of each strategy, and the two bankroll sums.
pub open spec fn aggregate_of(outcomes: Seq<(i32, i32)>) -> (int, int, int, int, int)
    decreases outcomes.len(),
{
    if outcomes.len() == 0 {
        (0int, 0int, 0int, 0int, 0int)
    } else {
        let prev = aggregate_of(outcomes.drop_last());
        let last = outcomes.last();
        (
            prev.0 + 1,
            prev.1 + if last.0 > last.1 {
                1int
            } else {
                0int
            },
            prev.2 + if last.1 > last.0 {
                1int
            } else {
                0int
            },
            prev.3 + last.0,
            prev.4 + last.1,
        )
    }
}

/// Law: an aggregate is built from exactly as many trials as it has
/// outcomes; nothing requested but not run is counted.
pub proof fn lemma_aggregate_counts_trials(outcomes: Seq<(i32, i32)>)
    ensures
        aggregate_of(outcomes).0 == outcomes.len(),
    decreases outcomes.len(),
{
    if outcomes.len() > 0 {
        lemma_aggregate_counts_trials(outcomes.drop_last());
    }
}

pub struct SimulationAggregate {
    trials: u64,
    strat1_wins: u64,
    strat2_wins: u64,
    strat1_sum: u64,
    strat2_sum: u64,
}

/// The final numbers of a run: one line of statistics over the completed
/// trials only.
#[derive(PartialEq, Eq, Structural, Clone, Copy)]
pub struct SimulationReport {
    pub trials: u64,
    pub strat1_wins: u64,
    pub strat2_wins: u64,
    pub equal_outcomes: u64,
    pub strat1_avg: u64,
    pub strat2_avg: u64,
}

impl SimulationAggregate {
    pub closed spec fn spec_trials(&self) -> u64 {
        self.trials
    }

    pub closed spec fn spec_strat1_wins(&self) -> u64 {
        self.strat1_wins
    }

    pub closed spec fn spec_strat2_wins(&self) -> u64 {
        self.strat2_wins
    }

    pub closed spec fn spec_strat1_sum(&self) -> u64 {
        self.strat1_sum
    }

    pub closed spec fn spec_strat2_sum(&self) -> u64 {
        self.strat2_sum
    }

    pub open spec fn wf(&self) -> bool {
        self.spec_strat1_wins() + self.spec_strat2_wins() <= self.spec_trials()
    }

    /// The aggregate holds exactly the statistics of these outcomes.
    pub open spec fn models(&self, outcomes: Seq<(i32, i32)>) -> bool {
        let m = aggregate_of(outcomes);
        &&& self.spec_trials() == m.0
        &&& self.spec_strat1_wins() == m.1
        &&& self.spec_strat2_wins() == m.2
        &&& self.spec_strat1_sum() == m.3
        &&& self.spec_strat2_sum() == m.4
    }

    pub fn trials(&self) -> (r: u64)
        ensures
            r == self.spec_trials(),
    {
        self.trials
    }

    pub fn strat1_sum(&self) -> (r: u64)
        ensures
            r == self.spec_strat1_sum(),
    {
        self.strat1_sum
    }

    pub fn strat2_sum(&self) -> (r: u64)
        ensures
            r == self.spec_strat2_sum(),
    {
        self.strat2_sum
    }

    pub fn new() -> (r: SimulationAggregate)
        ensures
            r.wf(),
            r.models(Seq::<(i32, i32)>::empty()),
            r.spec_trials() == 0,
    {
        SimulationAggregate { trials: 0, strat1_wins: 0, strat2_wins: 0, strat1_sum: 0, strat2_sum: 0 }
    }

    /// Folds one completed trial into the counts: a strictly greater
    /// bankroll is a win for that strategy, a tie is a win for neither, and
    /// both bankrolls join their sums.
    pub fn record_trial(&mut self, strat1_bankroll: i32, strat2_bankroll: i32)
        requires
            old(self).wf(),
            strat1_bankroll >= 0,
            strat2_bankroll >= 0,
            old(self).spec_trials() < u64::MAX,
            old(self).spec_strat1_sum() + strat1_bankroll <= u64::MAX,
            old(self).spec_strat2_sum() + strat2_bankroll <= u64::MAX,
        ensures
            final(self).wf(),
            final(self).spec_trials() == old(self).spec_trials() + 1,
            final(self).spec_strat1_wins() == old(self).spec_strat1_wins() + if strat1_bankroll
                > strat2_bankroll {
                1int
            } else {
                0int
            },
            final(self).spec_strat2_wins() == old(self).spec_strat2_wins() + if strat2_bankroll
                > strat1_bankroll {
                1int
            } else {
                0int
            },
            final(self).spec_strat1_sum() == old(self).spec_strat1_sum() + strat1_bankroll,
            final(self).spec_strat2_sum() == old(self).spec_strat2_sum() + strat2_bankroll,
            forall|outcomes: Seq<(i32, i32)>|
                #[trigger] old(self).models(outcomes) ==> final(self).models(
                    outcomes.push((strat1_bankroll, strat2_bankroll)),
                ),
    {
        self.trials = self.trials + 1;
        if strat1_bankroll > strat2_bankroll {
            self.strat1_wins = self.strat1_wins + 1;
        } else if strat2_bankroll > strat1_bankroll {
            self.strat2_wins = self.strat2_wins + 1;
        }
        self.strat1_sum = self.strat1_sum + strat1_bankroll as u64;
        self.strat2_sum = self.strat2_sum + strat2_bankroll as u64;
        proof {
            assert forall|outcomes: Seq<(i32, i32)>|
                old(self).models(outcomes) implies self.models(
                outcomes.push((strat1_bankroll, strat2_bankroll)),
            ) by {
                let extended = outcomes.push((strat1_bankroll, strat2_bankroll));
                assert(extended.drop_last() =~= outcomes);
                assert(extended.last() == (strat1_bankroll, strat2_bankroll));
            }
        }
    }

    /// The report over the completed trials: win counts, tie count, and the
    /// average bankroll of each strategy, averaging over the completed
    /// count. A run with no completed trials has no averages to compute and
    /// yields no report rather than dividing by zero.
    pub fn final_report(&self) -> (r: Option<SimulationReport>)
        requires
            self.wf(),
        ensures
            r is None <==> self.spec_trials() == 0,
            r is Some ==> {
                let rep = r->Some_0;
                &&& rep.trials == self.spec_trials()
                &&& rep.strat1_wins == self.spec_strat1_wins()
                &&& rep.strat2_wins == self.spec_strat2_wins()
                &&& rep.equal_outcomes == self.spec_trials() - self.spec_strat1_wins()
                    - self.spec_strat2_wins()
                &&& rep.strat1_avg == self.spec_strat1_sum() as int / self.spec_trials() as int
                &&& rep.strat2_avg == self.spec_strat2_sum() as int / self.spec_trials() as int
            },
    {
        if self.trials == 0 {
            None
        } else {
            Some(
                SimulationReport {
                    trials: self.trials,
                    strat1_wins: self.strat1_wins,
                    strat2_wins: self.strat2_wins,
                    equal_outcomes: self.trials - self.strat1_wins - self.strat2_wins,
                    strat1_avg: self.strat1_sum / self.trials,
                    strat2_avg: self.strat2_sum / self.trials,
                },
            )
        }
    }
}

/// Law: a report reflects exactly the trials whose outcomes were recorded,
/// however many were requested: an aggregate modelling `outcomes` reports
/// `outcomes.len()` trials.
pub proof fn lemma_report_reflects_completed(
    agg: SimulationAggregate,
    outcomes: Seq<(i32, i32)>,
)
    requires
        agg.models(outcomes),
    ensures
        agg.spec_trials() == outcomes.len(),
{
    lemma_aggregate_counts_trials(outcomes);
}

/// The cooperative-cancellation rule checked before each trial: run the
/// next trial exactly when trials remain and no interrupt has arrived.
pub fn should_continue(completed: u64, requested: u64, interrupted: bool) -> (r: bool)
    ensures
        r == (completed < requested && !interrupted),
{
    completed < requested && !interrupted
}

/// Runs one paired trial: two fresh games built from the same seed, one
/// per strategy, each played to completion. Both final bankrolls are the
/// strategies' values on the fresh state, so the pair is a function of the
/// seed and the game parameters.
pub fn run_trial(num_turns: usize, num_sides: u32, seed: u64) -> (r: (i32, i32))
    requires
        num_sides >= 1,
        num_turns < usize::MAX,
        num_sides + 1 <= usize::MAX,
        num_turns * num_sides <= i32::MAX,
    ensures
        r.0 == strat1_run(num_turns as nat, num_sides, seed, num_turns as nat, 0, 1, 0),
        r.1 == strat2_run(num_turns as nat, num_sides, seed, num_turns as nat, 0, 1, 0),
        0 <= r.0 <= num_turns * num_sides,
        0 <= r.1 <= num_turns * num_sides,
{
    let mut strat1 = Game::new(num_turns, num_sides, seed);
    let mut strat2 = Game::new(num_turns, num_sides, seed);
    strat1.game_loop();
    strat2.game_loop_twenty_only_strategy();
    (strat1.bankroll(), strat2.bankroll())
}

} // verus!
