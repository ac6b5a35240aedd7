use cln_feeder::decision::Action;
use cln_feeder::decision::select_action;
use cln_feeder::fees::NewFees;
use cln_feeder::trend::Trend;

fn profile(
    past_revenue: u32,
    average_revenue: u32,
    present_revenue: u32,
    past_fee: u32,
    average_fee: u32,
    present_fee: u32,
    current_fee: u32,
    adjustment_fee: u32,
) -> NewFees {
    NewFees {
        past_revenue,
        average_revenue,
        present_revenue,
        current_revenue: present_revenue,
        past_fee,
        average_fee,
        present_fee,
        current_fee,
        adjustment_fee,
    }
}

#[test]
fn single_sample_yields_no_decision() {
    let window = vec![(500, 0)];
    assert_eq!(NewFees::calculate(&window, 10), None);
}

#[test]
fn empty_window_yields_no_decision() {
    let window: Vec<(u32, u32)> = Vec::new();
    assert_eq!(NewFees::calculate(&window, 10), None);
}

#[test]
fn zero_revenue_halves_fee() {
    let window = vec![(500, 0), (500, 0)];
    assert_eq!(NewFees::calculate(&window, 10), Some(250));
}

#[test]
fn zero_revenue_halving_never_reaches_zero() {
    let window = vec![(1, 0), (1, 0)];
    assert_eq!(NewFees::calculate(&window, 10), Some(1));
    let window = vec![(0, 0), (0, 0)];
    assert_eq!(NewFees::calculate(&window, 10), Some(1));
}

#[test]
fn rising_revenue_rising_fee_steps_up() {
    // present fee 1000, overall 700, past 500: rising.
    // present revenue 300, overall 200, past 100: rising.
    let window = vec![(1000, 300), (600, 200), (500, 100)];
    assert_eq!(NewFees::calculate(&window, 10), Some(1100));
}

#[test]
fn falling_revenue_rising_fee_runs_down() {
    // fees: present (1000+600)/2 = 800, past 100, overall 450: rising.
    // revenues: present 10, past 200, overall 105: falling.
    // run-down: 1000 - 2 * |1000 - 800| = 600.
    let window = vec![(1000, 10), (600, 10), (100, 200), (100, 200)];
    assert_eq!(NewFees::calculate(&window, 10), Some(600));
}

#[test]
fn falling_revenue_falling_fee_runs_down() {
    // fees: present (1000+600)/2 = 800, past 2000, overall 1400: falling.
    // revenues: present 10, past 200, overall 105: falling.
    // run-down: 1000 - 2 * |1000 - 800| = 600.
    let window = vec![(1000, 10), (600, 10), (2000, 200), (2000, 200)];
    assert_eq!(NewFees::calculate(&window, 10), Some(600));
}

#[test]
fn falling_revenue_falling_fee_runs_down_small_window() {
    // fees: present (1000+600)/2 = 800, past (1200+1300)/2 = 1250,
    // overall 4100/4 = 1025: falling.
    // revenues: present 125, past 350, overall 237: falling.
    // run-down: 1000 - 2 * |1000 - 800| = 600.
    let window = vec![(1000, 100), (600, 150), (1200, 300), (1300, 400)];
    assert_eq!(NewFees::calculate(&window, 10), Some(600));
}

#[test]
fn adjustment_step_is_floored_to_one() {
    // current fee 7 with divisor 10 truncates to 0, so the step is 1.
    let window = vec![(7, 300), (5, 200), (3, 100)];
    assert_eq!(NewFees::calculate(&window, 10), Some(8));
}

#[test]
fn determine_fee_rising_column_signs() {
    // Fee trend fixed at rising (past 100 < overall 450 < present 800).
    let rising = profile(100, 200, 300, 100, 450, 800, 1000, 100);
    assert_eq!(rising.determine(), Some(1100)); // step up
    let falling = profile(300, 200, 100, 100, 450, 800, 1000, 100);
    assert_eq!(falling.determine(), Some(600)); // run down
    let hump = profile(100, 300, 200, 100, 450, 800, 1000, 100);
    assert_eq!(hump.determine(), Some(900)); // adjust down
    let dip = profile(300, 100, 200, 100, 450, 800, 1000, 100);
    assert_eq!(dip.determine(), None); // no change
}

#[test]
fn run_down_clamps_to_one() {
    // 10 - 2 * |10 - 300| would be negative; the emitted fee is 1.
    let p = profile(300, 200, 100, 1, 5, 300, 10, 1);
    assert_eq!(p.determine(), Some(1));
}

#[test]
fn flat_trends_hold_the_fee() {
    let window = vec![(500, 100), (500, 100), (500, 100)];
    assert_eq!(NewFees::calculate(&window, 10), None);
}

#[test]
fn trend_predicates_follow_the_averages() {
    let p = profile(100, 200, 300, 800, 450, 100, 1000, 100);
    assert!(p.rev_is_rising());
    assert!(!p.rev_is_falling());
    assert!(!p.rev_has_higher_average());
    assert!(!p.rev_has_lower_average());
    assert!(p.fee_is_falling());
    assert!(!p.fee_is_rising());
    assert_eq!(p.rev_trend(), Trend::Rising);
    assert_eq!(p.fee_trend(), Trend::Falling);
}

#[test]
fn boundary_trends_count_as_hump_and_dip() {
    // past == overall > present classifies as hump.
    let hump = profile(200, 200, 100, 100, 450, 800, 1000, 100);
    assert_eq!(hump.rev_trend(), Trend::Hump);
    // past == overall < present classifies as dip.
    let dip = profile(200, 200, 300, 100, 450, 800, 1000, 100);
    assert_eq!(dip.rev_trend(), Trend::Dip);
}

#[test]
fn select_action_matches_the_table() {
    assert_eq!(select_action(Trend::Rising, Trend::Rising), Action::StepUp);
    assert_eq!(select_action(Trend::Rising, Trend::Falling), Action::StepDown);
    assert_eq!(select_action(Trend::Rising, Trend::Hump), Action::AdjustUp);
    assert_eq!(select_action(Trend::Rising, Trend::Dip), Action::AdjustUp);
    assert_eq!(select_action(Trend::Falling, Trend::Rising), Action::RunDown);
    assert_eq!(select_action(Trend::Falling, Trend::Falling), Action::RunDown);
    assert_eq!(select_action(Trend::Falling, Trend::Hump), Action::StepDown);
    assert_eq!(select_action(Trend::Falling, Trend::Dip), Action::AdjustDown);
    assert_eq!(select_action(Trend::Hump, Trend::Rising), Action::AdjustDown);
    assert_eq!(select_action(Trend::Hump, Trend::Falling), Action::AdjustUp);
    assert_eq!(select_action(Trend::Hump, Trend::Hump), Action::AdjustUp);
    assert_eq!(select_action(Trend::Hump, Trend::Dip), Action::AdjustDown);
    assert_eq!(select_action(Trend::Dip, Trend::Rising), Action::NoChange);
    assert_eq!(select_action(Trend::Dip, Trend::Falling), Action::AdjustUp);
    assert_eq!(select_action(Trend::Dip, Trend::Hump), Action::StepDown);
    assert_eq!(select_action(Trend::Dip, Trend::Dip), Action::StepUp);
    assert_eq!(select_action(Trend::Flat, Trend::Rising), Action::NoChange);
    assert_eq!(select_action(Trend::Rising, Trend::Flat), Action::NoChange);
    assert_eq!(select_action(Trend::Flat, Trend::Flat), Action::NoChange);
}

#[test]
fn increase_and_decrease_saturate() {
    let p = profile(100, 200, 300, 100, 450, 800, u32::MAX, 100);
    assert_eq!(p.increase(false), u32::MAX);
    assert_eq!(p.increase(true), u32::MAX);
    let q = profile(100, 200, 300, 100, 450, 800, 50, 100);
    assert_eq!(q.decrease(false), 0);
    assert_eq!(q.decrease(true), 0);
    assert_eq!(q.increase(false), 150);
    // fast moves go by twice the gap to the present average fee.
    assert_eq!(q.increase(true), 50 + 2 * (800 - 50));
}
