use satellite_planner::methods::{
    brute_force_instrument, brute_force_satellite, count_differing, find_carrier,
    find_powered_on_instruments, is_onboard, is_satellite_done,
    is_satellite_pointing_in_direction, one_task_list, pointing_needed, remove_redundant_turns,
    schedule_all, schedule_all_lookups_present, schedule_not_pointing_with_powered_off_instruments,
    schedule_not_pointing_with_powered_on_instruments, schedule_one,
    schedule_pointing_with_powered_off_instruments, schedule_pointing_with_powered_on_instruments,
    switching, MethodResult, SatelliteMethod, SatelliteStatus, Task,
};
use satellite_planner::operators::{SatelliteEnum, SatelliteGoals, SatelliteOperator, SatelliteState};
use satellite_planner::quantity::Quantity;
use satellite_planner::table::Table;

fn q(n: u64) -> Quantity {
    Quantity::from_count(n).unwrap()
}

fn sat(n: u64) -> SatelliteEnum {
    SatelliteEnum::Satellite(q(n))
}

fn ins(n: u64) -> SatelliteEnum {
    SatelliteEnum::Instrument(q(n))
}

fn mode(n: u64) -> SatelliteEnum {
    SatelliteEnum::Mode(q(n))
}

fn dir(n: u64) -> SatelliteEnum {
    SatelliteEnum::Direction(q(n))
}

fn op(step: SatelliteOperator<SatelliteEnum>) -> Task {
    Task::Operator(step)
}

/// Satellite 20 carries instruments 2 and 1 (in this order), satellite 10
/// carries instrument 3. Instrument 1 supports mode 4, instrument 2 modes
/// 4 and 5, instrument 3 mode 5.
fn world() -> SatelliteState {
    let mut onboard = Table::new();
    onboard.insert(sat(20), vec![ins(2), ins(1)]);
    onboard.insert(sat(10), vec![ins(3)]);
    let mut supports = Table::new();
    supports.insert(ins(3), vec![mode(5)]);
    supports.insert(ins(2), vec![mode(4), mode(5)]);
    supports.insert(ins(1), vec![mode(4)]);
    let mut pointing = Table::new();
    pointing.insert(sat(10), dir(6));
    pointing.insert(sat(20), dir(7));
    let mut power_avail = Table::new();
    power_avail.insert(sat(10), true);
    power_avail.insert(sat(20), true);
    let mut calibration_target = Table::new();
    calibration_target.insert(ins(1), dir(6));
    calibration_target.insert(ins(2), dir(7));
    calibration_target.insert(ins(3), dir(8));
    SatelliteState::new(
        onboard,
        supports,
        pointing,
        power_avail,
        vec![],
        vec![],
        Table::new(),
        calibration_target,
        Table::new(),
        q(0),
        Table::new(),
        Table::new(),
        q(0),
        Table::new(),
    )
}

fn goal_of(images: &[(SatelliteEnum, SatelliteEnum)], pointings: &[(SatelliteEnum, SatelliteEnum)]) -> SatelliteGoals {
    let mut have_image = Table::new();
    for (direction, wanted) in images {
        have_image.insert(*direction, *wanted);
    }
    let mut pointing = Table::new();
    for (satellite, direction) in pointings {
        pointing.insert(*satellite, *direction);
    }
    SatelliteGoals::new(have_image, pointing, q(0))
}

#[test]
fn lookups_take_the_first_in_order() {
    let mut state = world();
    assert_eq!(brute_force_instrument(&state, &mode(4)), Some(ins(1)));
    assert_eq!(brute_force_instrument(&state, &mode(5)), Some(ins(2)));
    assert_eq!(brute_force_instrument(&state, &mode(9)), None);
    assert_eq!(brute_force_satellite(&state, &ins(2), &mode(5)), Some(sat(20)));
    assert_eq!(brute_force_satellite(&state, &ins(3), &mode(5)), Some(sat(10)));
    assert_eq!(brute_force_satellite(&state, &ins(3), &mode(4)), None);
    assert_eq!(find_carrier(&state, &ins(1)), Some(sat(20)));
    assert_eq!(find_carrier(&state, &ins(9)), None);
    state.onboard.insert(sat(10), vec![ins(3), ins(1)]);
    assert_eq!(find_carrier(&state, &ins(1)), Some(sat(10)));
    assert!(is_onboard(&state, sat(20), ins(1)));
    assert!(!is_onboard(&state, sat(20), ins(3)));
    assert!(!is_onboard(&state, sat(30), ins(3)));
    assert!(is_satellite_pointing_in_direction(&state, &sat(10), &dir(6)));
    assert!(!is_satellite_pointing_in_direction(&state, &sat(10), &dir(7)));
}

#[test]
fn the_powered_instrument_is_the_first_on_board_that_is_on() {
    let mut state = world();
    assert_eq!(find_powered_on_instruments(&state, &sat(20)), None);
    state.power_on = vec![ins(1), ins(3)];
    assert_eq!(find_powered_on_instruments(&state, &sat(20)), Some(ins(1)));
    assert_eq!(find_powered_on_instruments(&state, &sat(10)), Some(ins(3)));
    assert_eq!(find_powered_on_instruments(&state, &sat(30)), None);
    state.power_on = vec![ins(1), ins(2)];
    assert_eq!(find_powered_on_instruments(&state, &sat(20)), Some(ins(2)));
}

#[test]
fn redundant_turns_are_removed() {
    let tasks = vec![
        op(SatelliteOperator::TurnTo(sat(1), dir(2), dir(2))),
        Task::Method(SatelliteMethod::ScheduleAll),
        op(SatelliteOperator::TurnTo(sat(1), dir(2), dir(3))),
        op(SatelliteOperator::Calibrate(sat(1), dir(2), dir(2))),
        op(SatelliteOperator::TurnTo(sat(2), dir(3), dir(3))),
    ];
    assert_eq!(
        remove_redundant_turns(tasks),
        vec![
            Task::Method(SatelliteMethod::ScheduleAll),
            op(SatelliteOperator::TurnTo(sat(1), dir(2), dir(3))),
            op(SatelliteOperator::Calibrate(sat(1), dir(2), dir(2))),
        ]
    );
    assert_eq!(remove_redundant_turns(vec![]), vec![]);
}

#[test]
fn switching_settles_the_power() {
    let mut state = world();
    let on = op(SatelliteOperator::SwitchOn(ins(1), sat(20)));
    assert_eq!(switching(&state, sat(20), ins(1)), one_task_list(vec![on]));
    state.power_on = vec![ins(3)];
    assert_eq!(switching(&state, sat(20), ins(1)), MethodResult::TaskLists(vec![vec![on]]));
    state.power_on = vec![ins(3), ins(2)];
    assert_eq!(
        switching(&state, sat(20), ins(1)),
        MethodResult::TaskLists(vec![vec![op(SatelliteOperator::SwitchOff(ins(2), sat(20))), on]])
    );
    state.power_on = vec![ins(1)];
    assert_eq!(switching(&state, sat(20), ins(1)), MethodResult::TaskLists(vec![vec![]]));
    assert_eq!(SatelliteMethod::Switching(sat(20), ins(1)).apply(&state, &goal_of(&[], &[])), MethodResult::TaskLists(vec![vec![]]));
}

#[test]
fn schedule_one_in_place() {
    let mut state = world();
    let switch = Task::Method(SatelliteMethod::Switching(sat(20), ins(2)));
    let calibrate = op(SatelliteOperator::Calibrate(sat(20), ins(2), dir(7)));
    let image = op(SatelliteOperator::TakeImage(sat(20), dir(7), ins(2), mode(5)));
    let plain = MethodResult::TaskLists(vec![vec![switch, calibrate, image]]);
    assert_eq!(schedule_one(&state, sat(20), ins(2), mode(5), dir(7), dir(7)), plain);
    assert_eq!(schedule_pointing_with_powered_on_instruments(sat(20), ins(2), mode(5), dir(7)), plain);
    state.power_on = vec![ins(3)];
    assert_eq!(schedule_one(&state, sat(20), ins(2), mode(5), dir(7), dir(7)), plain);
    assert_eq!(schedule_pointing_with_powered_off_instruments(&state, &sat(20), ins(2), mode(5), dir(7)), plain);
    state.power_on = vec![ins(3), ins(1)];
    let off = op(SatelliteOperator::SwitchOff(ins(1), sat(20)));
    assert_eq!(
        schedule_one(&state, sat(20), ins(2), mode(5), dir(7), dir(7)),
        MethodResult::TaskLists(vec![vec![off, switch, calibrate, image]])
    );
    state.power_avail.insert(sat(20), false);
    assert_eq!(schedule_one(&state, sat(20), ins(2), mode(5), dir(7), dir(7)), plain);
}

#[test]
fn schedule_one_after_a_turn() {
    let mut state = world();
    let switch = Task::Method(SatelliteMethod::Switching(sat(20), ins(1)));
    let calibrate = op(SatelliteOperator::Calibrate(sat(20), ins(1), dir(6)));
    let image = |d: u64| op(SatelliteOperator::TakeImage(sat(20), dir(d), ins(1), mode(4)));
    let turn = |new: u64, previous: u64| op(SatelliteOperator::TurnTo(sat(20), dir(new), dir(previous)));
    assert_eq!(
        schedule_one(&state, sat(20), ins(1), mode(4), dir(9), dir(7)),
        MethodResult::TaskLists(vec![vec![turn(6, 7), switch, calibrate, turn(9, 6), image(9)]])
    );
    assert_eq!(
        schedule_one(&state, sat(20), ins(1), mode(4), dir(6), dir(7)),
        MethodResult::TaskLists(vec![vec![turn(6, 7), switch, calibrate, image(6)]])
    );
    assert_eq!(
        schedule_one(&state, sat(20), ins(1), mode(4), dir(9), dir(6)),
        MethodResult::TaskLists(vec![vec![switch, calibrate, turn(9, 6), image(9)]])
    );
    assert_eq!(
        schedule_one(&state, sat(20), ins(1), mode(4), dir(6), dir(6)),
        MethodResult::TaskLists(vec![vec![switch, calibrate, image(6)]])
    );
    assert_eq!(
        schedule_not_pointing_with_powered_on_instruments(sat(20), ins(1), mode(4), dir(9), dir(7), &dir(6)),
        MethodResult::TaskLists(vec![vec![turn(6, 7), switch, calibrate, turn(9, 6), image(9)]])
    );
    state.power_on = vec![ins(3), ins(2)];
    let off = op(SatelliteOperator::SwitchOff(ins(2), sat(20)));
    assert_eq!(
        schedule_one(&state, sat(20), ins(1), mode(4), dir(9), dir(7)),
        MethodResult::TaskLists(vec![vec![off, turn(6, 7), switch, calibrate, turn(9, 6), image(9)]])
    );
    assert_eq!(
        schedule_not_pointing_with_powered_off_instruments(&state, &sat(20), ins(1), mode(4), dir(6), dir(6), &dir(6)),
        MethodResult::TaskLists(vec![vec![off, switch, calibrate, image(6)]])
    );
    state.power_on = vec![ins(3)];
    assert_eq!(
        schedule_not_pointing_with_powered_off_instruments(&state, &sat(20), ins(1), mode(4), dir(6), dir(7), &dir(6)),
        MethodResult::TaskLists(vec![vec![turn(6, 7), switch, calibrate, image(6)]])
    );
}

#[test]
fn schedule_one_without_the_entries_it_needs() {
    let mut state = world();
    let goal = goal_of(&[], &[]);
    let method = SatelliteMethod::ScheduleOne(sat(20), ins(1), mode(4), dir(9), dir(7));
    assert!(method.lookups_present(&state, &goal));
    state.calibration_target = Table::new();
    assert!(!method.lookups_present(&state, &goal));
    assert_eq!(method.apply(&state, &goal), MethodResult::Failure);
    let in_place = SatelliteMethod::ScheduleOne(sat(20), ins(1), mode(4), dir(7), dir(7));
    assert!(in_place.lookups_present(&state, &goal));
    state.power_avail = Table::new();
    assert!(!in_place.lookups_present(&state, &goal));
    assert_eq!(in_place.apply(&state, &goal), MethodResult::Failure);
    assert!(SatelliteMethod::Switching(sat(20), ins(1)).lookups_present(&state, &goal));
}

#[test]
fn schedule_all_turns_the_satellites_in_the_end() {
    let mut state = world();
    state.have_image.insert(dir(7), mode(5));
    let goal = goal_of(&[(dir(7), mode(5))], &[(sat(20), dir(6)), (sat(10), dir(6)), (sat(30), dir(6))]);
    assert_eq!(pointing_needed(&state, &goal), vec![(sat(20), dir(6))]);
    assert_eq!(
        schedule_all(&state, &goal),
        MethodResult::TaskLists(vec![vec![op(SatelliteOperator::TurnTo(sat(20), dir(6), dir(7)))]])
    );
    assert!(!schedule_all_lookups_present(&state, &goal));
    assert!(!SatelliteMethod::ScheduleAll.lookups_present(&state, &goal));
    let known = goal_of(&[(dir(7), mode(5))], &[(sat(20), dir(7)), (sat(10), dir(6))]);
    assert!(schedule_all_lookups_present(&state, &known));
    assert_eq!(schedule_all(&state, &known), MethodResult::PlanFound);
    assert_eq!(pointing_needed(&state, &known), vec![]);
}

#[test]
fn schedule_all_needs_the_pointing_of_the_satellite_it_picks() {
    let mut state = world();
    let goal = goal_of(&[(dir(7), mode(5)), (dir(6), mode(9))], &[(sat(30), dir(6))]);
    assert!(schedule_all_lookups_present(&state, &goal));
    state.pointing = Table::new();
    assert!(!schedule_all_lookups_present(&state, &goal));
    assert_eq!(schedule_all(&state, &goal), MethodResult::Failure);
}

#[test]
fn distance_counts_what_is_missing() {
    let mut state = world();
    let goal = goal_of(
        &[(dir(6), mode(4)), (dir(7), mode(5)), (dir(8), mode(5))],
        &[(sat(10), dir(6)), (sat(20), dir(6)), (sat(30), dir(6))],
    );
    assert_eq!(goal.distance_from(&state), q(5));
    assert_eq!(goal.checked_distance_from(&state), Some(q(5)));
    assert_eq!(count_differing(&goal.have_image, &state.have_image), 3);
    assert_eq!(count_differing(&goal.pointing, &state.pointing), 2);
    state.have_image.insert(dir(7), mode(5));
    state.have_image.insert(dir(8), mode(4));
    state.have_image.insert(dir(9), mode(4));
    assert_eq!(goal.distance_from(&state), q(4));
    state.pointing.insert(sat(20), dir(6));
    assert_eq!(goal.distance_from(&state), q(3));
    assert_eq!(goal_of(&[], &[]).distance_from(&state), q(0));
    assert_eq!(count_differing(&state.pointing, &state.pointing), 0);
}

#[test]
fn accepting_a_state_leaves_it_alone_and_gives_one_answer() {
    let mut state = world();
    let goal = goal_of(&[(dir(7), mode(5))], &[(sat(10), dir(6))]);
    let before = state.clone();
    assert!(!goal.accepts(&state));
    assert!(!goal.accepts(&state));
    assert_eq!(state, before);
    state.have_image.insert(dir(7), mode(5));
    let with_image = state.clone();
    assert!(goal.accepts(&state));
    assert!(goal.accepts(&state));
    assert_eq!(goal.accepts(&state), goal.all_met_in(&state));
    assert_eq!(state, with_image);
}

#[test]
fn the_status_tells_whether_the_images_are_taken() {
    let mut state = world();
    let goal = || goal_of(&[(dir(7), mode(5))], &[(sat(10), dir(9))]);
    assert!(!is_satellite_done(state.clone(), &goal()));
    assert_eq!(
        SatelliteStatus::new(7, state.clone(), sat(1), ins(2), mode(3), dir(4), dir(5), goal()),
        SatelliteStatus::NotDone(7, sat(1), ins(2), mode(3), dir(4), dir(5))
    );
    state.have_image.insert(dir(7), mode(5));
    assert!(is_satellite_done(state.clone(), &goal()));
    assert_eq!(
        SatelliteStatus::new(7, state.clone(), sat(1), ins(2), mode(3), dir(4), dir(5), goal()),
        SatelliteStatus::Done
    );
    assert_eq!(state.status, SatelliteStatus::Done);
}
