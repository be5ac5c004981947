use dice_sim::expected_values::{ExpectedValues, EV_SCALE};
use dice_sim::game::Game;
use dice_sim::simulation::{run_trial, should_continue, SimulationAggregate};
use dice_sim::text::{dec_string, dec_string_i64, default_file_name, early_exit_file_name, trial_line};

#[test]
fn table_with_one_turn() {
    // One turn: the level after the last turn is all zeros, and the level
    // with one turn left holds the face values themselves.
    let mut table = ExpectedValues::new(1, 20);
    table.calculate();
    for d in 1..=20u32 {
        assert_eq!(table.get(1, d), 0);
        assert_eq!(table.get(0, d), d as u64 * EV_SCALE);
    }
}

#[test]
fn table_with_two_turns() {
    // Two turns: the earliest level averages the face values of the level
    // after it, so each cell is max(face, 10.5), scaled.
    let mut table = ExpectedValues::new(2, 20);
    table.calculate();
    let average_scaled: u64 = 21 * EV_SCALE / 2; // 10.5, scaled
    for d in 1..=20u32 {
        assert_eq!(table.get(1, d), d as u64 * EV_SCALE);
        let expected = if (d as u64) * EV_SCALE > average_scaled {
            d as u64 * EV_SCALE
        } else {
            average_scaled
        };
        assert_eq!(table.get(0, d), expected);
    }
    assert_eq!(table.get(0, 1), 11010048);
    assert_eq!(table.get(0, 20), 20 * EV_SCALE);
}

#[test]
fn table_value_never_below_face() {
    let mut table = ExpectedValues::new(5, 6);
    table.calculate();
    for t in 0..5usize {
        for d in 1..=6u32 {
            assert!(table.get(t, d) >= d as u64 * EV_SCALE);
        }
    }
}

#[test]
fn ev_sum_over_higher_faces() {
    let mut table = ExpectedValues::new(1, 3);
    table.calculate();
    // With one turn left the cells hold the faces, so the sum above face 1
    // is (2 + 3) scaled.
    assert_eq!(table.get_ev_sum(0, 1), 5 * EV_SCALE as u128);
    assert_eq!(table.get_ev_sum(0, 3), 0);
}

#[test]
fn same_seed_reproduces_bankrolls() {
    let mut first = Game::new(100, 20, 424242);
    let mut second = Game::new(100, 20, 424242);
    first.game_loop();
    second.game_loop();
    assert!(first.is_game_over());
    assert!(second.is_game_over());
    assert_eq!(first.bankroll(), second.bankroll());

    let mut first2 = Game::new(100, 20, 424242);
    let mut second2 = Game::new(100, 20, 424242);
    first2.game_loop_twenty_only_strategy();
    second2.game_loop_twenty_only_strategy();
    assert_eq!(first2.bankroll(), second2.bankroll());
}

#[test]
fn paired_trial_is_deterministic() {
    let a = run_trial(100, 20, 99991);
    let b = run_trial(100, 20, 99991);
    assert_eq!(a, b);
    assert!(a.0 >= 0 && a.0 <= 2000);
    assert!(a.1 >= 0 && a.1 <= 2000);
}

#[test]
fn table_strategy_banks_something() {
    let mut game = Game::new(100, 20, 7);
    game.game_loop();
    assert!(game.is_game_over());
    assert!(game.bankroll() >= 0);
}

#[test]
fn max_face_strategy_banks_multiples_of_the_max() {
    let mut game = Game::new(50, 6, 123);
    game.game_loop_twenty_only_strategy();
    assert!(game.is_game_over());
    let bankroll = game.bankroll();
    assert!(bankroll >= 0 && bankroll <= 300);
    assert_eq!(bankroll % 6, 0);
}

#[test]
fn one_sided_die_always_banks() {
    // With a single face the maximum face is always in hand, so every turn
    // banks 1; the table strategy sees a table value equal to the face and
    // banks as well.
    let mut strat2 = Game::new(25, 1, 5);
    strat2.game_loop_twenty_only_strategy();
    assert_eq!(strat2.bankroll(), 25);
    let mut strat1 = Game::new(25, 1, 5);
    strat1.game_loop();
    assert_eq!(strat1.bankroll(), 25);
}

#[test]
fn aggregate_counts_completed_trials_only() {
    // Three of five requested trials complete before an interrupt: the
    // report is built from exactly those three.
    let mut agg = SimulationAggregate::new();
    assert!(agg.final_report().is_none());
    agg.record_trial(5, 3);
    agg.record_trial(2, 2);
    agg.record_trial(1, 4);
    assert!(should_continue(3, 5, false));
    assert!(!should_continue(3, 5, true));
    assert!(!should_continue(5, 5, false));
    let report = agg.final_report().expect("three trials were recorded");
    assert_eq!(report.trials, 3);
    assert_eq!(report.strat1_wins, 1);
    assert_eq!(report.strat2_wins, 1);
    assert_eq!(report.equal_outcomes, 1);
    assert_eq!(report.strat1_avg, 2); // (5 + 2 + 1) / 3
    assert_eq!(report.strat2_avg, 3); // (3 + 2 + 4) / 3
}

#[test]
fn decimal_rendering() {
    assert_eq!(dec_string(0), "0");
    assert_eq!(dec_string(907), "907");
    assert_eq!(dec_string(u64::MAX), "18446744073709551615");
    assert_eq!(dec_string_i64(-45), "-45");
    assert_eq!(dec_string_i64(45), "45");
}

#[test]
fn trial_line_format() {
    assert_eq!(trial_line(7, 10, 3), "Seed: 7, Final Bankrolls: 10, 3\n");
}

#[test]
fn artifact_names() {
    assert_eq!(
        default_file_name(5, "2024-01-02_03-04-05"),
        "./output/5_simulations_2024-01-02_03-04-05.txt"
    );
    assert_eq!(
        early_exit_file_name("5_simulations_x", "txt", 3),
        "5_simulations_x_early_exit_3_simulations_completed.txt"
    );
    assert_eq!(
        early_exit_file_name("plain", "", 0),
        "plain_early_exit_0_simulations_completed"
    );
}
