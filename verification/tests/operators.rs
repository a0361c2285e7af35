use satellite_planner::operators::{
    is_satellite_valid, list_contains, remove_all, OperatorKind, SatelliteEnum, SatelliteGoals,
    SatelliteOperator, SatelliteState,
};
use satellite_planner::quantity::Quantity;
use satellite_planner::table::Table;

fn q(n: u64) -> Quantity {
    Quantity::from_count(n).unwrap()
}

fn sat(n: u64) -> SatelliteEnum {
    SatelliteEnum::Satellite(q(n))
}

fn ins(n: u64) -> SatelliteEnum {
    SatelliteEnum::Instrument(q(n))
}

fn mode(n: u64) -> SatelliteEnum {
    SatelliteEnum::Mode(q(n))
}

fn dir(n: u64) -> SatelliteEnum {
    SatelliteEnum::Direction(q(n))
}

/// Satellite 0 carries instruments 1 and 2, satellite 10 carries
/// instrument 11. Instrument 1 supports mode 3, instrument 2 mode 4,
/// instrument 11 both. Calibration targets are directions 5, 6 and 5.
fn world() -> SatelliteState {
    let mut onboard = Table::new();
    onboard.insert(sat(0), vec![ins(1), ins(2)]);
    onboard.insert(sat(10), vec![ins(11)]);
    let mut supports = Table::new();
    supports.insert(ins(1), vec![mode(3)]);
    supports.insert(ins(2), vec![mode(4)]);
    supports.insert(ins(11), vec![mode(3), mode(4)]);
    let mut pointing = Table::new();
    pointing.insert(sat(0), dir(5));
    pointing.insert(sat(10), dir(6));
    let mut power_avail = Table::new();
    power_avail.insert(sat(0), true);
    power_avail.insert(sat(10), true);
    let mut calibration_target = Table::new();
    calibration_target.insert(ins(1), dir(5));
    calibration_target.insert(ins(2), dir(6));
    calibration_target.insert(ins(11), dir(5));
    let mut data_capacity = Table::new();
    data_capacity.insert(sat(0), q(100));
    data_capacity.insert(sat(10), q(15));
    let mut data = Table::new();
    data.insert((dir(5), mode(3)), q(10));
    data.insert((dir(6), mode(4)), q(20));
    let mut slew_time = Table::new();
    slew_time.insert((dir(6), dir(5)), q(7));
    slew_time.insert((dir(5), dir(6)), q(8));
    let mut fuel = Table::new();
    fuel.insert(sat(0), q(10));
    fuel.insert(sat(10), q(7));
    SatelliteState::new(
        onboard,
        supports,
        pointing,
        power_avail,
        vec![],
        vec![],
        Table::new(),
        calibration_target,
        data_capacity,
        q(0),
        data,
        slew_time,
        q(0),
        fuel,
    )
}

#[test]
fn new_keeps_the_tables_and_accounts_for_fuel() {
    let state = world();
    assert!(!state.strips);
    assert_eq!(state.fuel_used, q(0));
    assert_eq!(state.pointing.get(&sat(10)), Some(&dir(6)));
    assert!(state.power_on.is_empty());
    assert_eq!(state.clone(), state);
}

#[test]
fn setters_change_one_entry() {
    let mut state = world();
    let before = state.clone();
    state.set_data_capacity(sat(0), q(55));
    assert_eq!(state.data_capacity.get(&sat(0)), Some(&q(55)));
    assert_eq!(state.data_capacity.get(&sat(10)), Some(&q(15)));
    state.set_data_stored(q(9));
    assert_eq!(state.total_data_stored, q(9));
    state.set_slew_time(&dir(5), &dir(7), q(3));
    assert_eq!(state.slew_time.get(&(dir(5), dir(7))), Some(&q(3)));
    assert_eq!(state.slew_time.get(&(dir(7), dir(5))), None);
    state.set_satellite_fuel(&sat(10), q(1));
    assert_eq!(state.fuel.get(&sat(10)), Some(&q(1)));
    state.set_fuel_used(q(4));
    assert_eq!(state.fuel_used, q(4));
    state.set_strips(true);
    assert!(state.strips);
    assert_eq!(state.onboard, before.onboard);
    assert_eq!(state.pointing, before.pointing);
    assert_eq!(state.power_avail, before.power_avail);
}

#[test]
fn turn_to_takes_the_slew_time_from_the_fuel() {
    let mut state = world();
    assert!(state.turn_to(&sat(0), &dir(6), &dir(5)));
    assert_eq!(state.pointing.get(&sat(0)), Some(&dir(6)));
    assert_eq!(state.fuel.get(&sat(0)), Some(&q(3)));
    assert_eq!(state.fuel_used, q(7));
    assert_eq!(state.fuel.get(&sat(10)), Some(&q(7)));
    assert_eq!(state.pointing.get(&sat(10)), Some(&dir(6)));
    assert_eq!(state.slew_time, world().slew_time);
}

#[test]
fn turn_to_with_exactly_enough_fuel() {
    let mut state = world();
    state.set_satellite_fuel(&sat(0), q(7));
    assert!(state.turn_to(&sat(0), &dir(6), &dir(5)));
    assert_eq!(state.fuel.get(&sat(0)), Some(&q(0)));
}

#[test]
fn turn_to_fails_without_enough_fuel() {
    let mut state = world();
    state.set_satellite_fuel(&sat(0), Quantity::from_bits((7 << 24) - 1));
    let before = state.clone();
    assert!(!state.turn_to(&sat(0), &dir(6), &dir(5)));
    assert_eq!(state, before);
}

#[test]
fn turn_to_fails_from_another_direction_or_to_the_same() {
    let mut state = world();
    let before = state.clone();
    assert!(!state.turn_to(&sat(0), &dir(5), &dir(6)));
    assert!(!state.turn_to(&sat(0), &dir(5), &dir(5)));
    assert!(!state.turn_to(&sat(0), &dir(7), &dir(5)));
    assert!(!state.turn_to(&sat(99), &dir(6), &dir(5)));
    assert_eq!(state, before);
}

#[test]
fn turn_to_without_a_fuel_entry_fails() {
    let mut state = world();
    state.fuel = Table::new();
    let before = state.clone();
    assert!(!state.turn_to(&sat(0), &dir(6), &dir(5)));
    assert_eq!(state, before);
    let step = SatelliteOperator::TurnTo(sat(0), dir(6), dir(5));
    assert!(!step.lookups_present(&state));
}

#[test]
fn turn_to_in_strips_mode_leaves_the_fuel_alone() {
    let mut state = world();
    state.set_strips(true);
    state.set_satellite_fuel(&sat(0), q(1));
    assert!(state.turn_to(&sat(0), &dir(6), &dir(5)));
    assert_eq!(state.pointing.get(&sat(0)), Some(&dir(6)));
    assert_eq!(state.fuel.get(&sat(0)), Some(&q(1)));
    assert_eq!(state.fuel_used, q(0));
}

#[test]
fn turn_to_refuses_a_fuel_total_out_of_range() {
    let mut state = world();
    state.set_fuel_used(Quantity::from_bits(i64::MAX));
    let before = state.clone();
    assert!(!state.turn_to(&sat(0), &dir(6), &dir(5)));
    assert_eq!(state, before);
}

#[test]
fn switch_on_takes_the_power_and_the_calibration() {
    let mut state = world();
    state.calibrated = vec![ins(2), ins(1), ins(2)];
    assert!(state.switch_on(&ins(2), &sat(0)));
    assert_eq!(state.power_on, vec![ins(2)]);
    assert_eq!(state.calibrated, vec![ins(1)]);
    assert_eq!(state.power_avail.get(&sat(0)), Some(&false));
    assert_eq!(state.power_avail.get(&sat(10)), Some(&true));
}

#[test]
fn switch_on_fails_without_power_or_on_the_wrong_satellite() {
    let mut state = world();
    assert!(state.switch_on(&ins(1), &sat(0)));
    let before = state.clone();
    assert!(!state.switch_on(&ins(2), &sat(0)));
    assert!(!state.switch_on(&ins(1), &sat(10)));
    assert!(!state.switch_on(&ins(1), &sat(99)));
    assert_eq!(state, before);
    assert!(!SatelliteOperator::SwitchOn(ins(1), sat(99)).lookups_present(&state));
    assert!(SatelliteOperator::SwitchOn(ins(1), sat(10)).lookups_present(&state));
}

#[test]
fn switch_off_frees_the_power_and_takes_the_calibration() {
    let mut state = world();
    assert!(state.switch_on(&ins(1), &sat(0)));
    assert!(state.calibrate(&sat(0), &ins(1), &dir(5)));
    assert_eq!(state.calibrated, vec![ins(1)]);
    assert!(state.switch_off(&ins(1), &sat(0)));
    assert!(state.power_on.is_empty());
    assert!(state.calibrated.is_empty());
    assert_eq!(state.power_avail.get(&sat(0)), Some(&true));
}

#[test]
fn switch_off_fails_for_an_instrument_that_is_off() {
    let mut state = world();
    let before = state.clone();
    assert!(!state.switch_off(&ins(1), &sat(0)));
    assert!(state.switch_on(&ins(1), &sat(0)));
    assert!(!state.switch_off(&ins(1), &sat(10)));
    assert!(!state.switch_off(&ins(2), &sat(0)));
    assert_ne!(state, before);
}

#[test]
fn calibrate_needs_power_pointing_and_the_target() {
    let mut state = world();
    assert!(!state.calibrate(&sat(0), &ins(1), &dir(5)));
    assert!(state.switch_on(&ins(1), &sat(0)));
    assert!(!state.calibrate(&sat(0), &ins(1), &dir(6)));
    assert!(!state.calibrate(&sat(0), &ins(2), &dir(5)));
    assert!(!state.calibrate(&sat(10), &ins(1), &dir(5)));
    assert!(state.calibrated.is_empty());
    assert!(state.calibrate(&sat(0), &ins(1), &dir(5)));
    assert_eq!(state.calibrated, vec![ins(1)]);
    assert!(state.turn_to(&sat(0), &dir(6), &dir(5)));
    assert!(!state.calibrate(&sat(0), &ins(1), &dir(5)));
    assert!(!state.calibrate(&sat(0), &ins(1), &dir(6)));
}

#[test]
fn take_image_records_the_image_and_the_data() {
    let mut state = world();
    assert!(state.switch_on(&ins(1), &sat(0)));
    assert!(state.calibrate(&sat(0), &ins(1), &dir(5)));
    assert!(state.take_image(&sat(0), dir(5), &ins(1), &mode(3)));
    assert_eq!(state.have_image.get(&dir(5)), Some(&mode(3)));
    assert_eq!(state.data_capacity.get(&sat(0)), Some(&q(90)));
    assert_eq!(state.total_data_stored, q(10));
    assert!(state.take_image(&sat(0), dir(5), &ins(1), &mode(3)));
    assert_eq!(state.data_capacity.get(&sat(0)), Some(&q(80)));
    assert_eq!(state.total_data_stored, q(20));
}

#[test]
fn take_image_of_an_unlisted_pair_takes_no_data() {
    let mut state = world();
    state.set_satellite_fuel(&sat(10), q(8));
    assert!(state.switch_on(&ins(11), &sat(10)));
    assert!(state.turn_to(&sat(10), &dir(5), &dir(6)));
    assert!(state.calibrate(&sat(10), &ins(11), &dir(5)));
    assert!(state.take_image(&sat(10), dir(5), &ins(11), &mode(4)));
    assert_eq!(state.data_capacity.get(&sat(10)), Some(&q(15)));
    assert_eq!(state.total_data_stored, q(0));
    assert_eq!(state.have_image.get(&dir(5)), Some(&mode(4)));
}

#[test]
fn take_image_fails_when_a_condition_is_missing() {
    let mut state = world();
    assert!(!state.take_image(&sat(0), dir(5), &ins(1), &mode(3)));
    assert!(state.switch_on(&ins(1), &sat(0)));
    assert!(!state.take_image(&sat(0), dir(5), &ins(1), &mode(3)));
    assert!(state.calibrate(&sat(0), &ins(1), &dir(5)));
    assert!(!state.take_image(&sat(0), dir(5), &ins(1), &mode(4)));
    assert!(!state.take_image(&sat(0), dir(6), &ins(1), &mode(3)));
    assert!(!state.take_image(&sat(10), dir(5), &ins(1), &mode(3)));
    state.set_data_capacity(sat(0), q(9));
    let before = state.clone();
    assert!(!state.take_image(&sat(0), dir(5), &ins(1), &mode(3)));
    assert_eq!(state, before);
    state.set_data_capacity(sat(0), q(10));
    assert!(state.take_image(&sat(0), dir(5), &ins(1), &mode(3)));
    assert_eq!(state.data_capacity.get(&sat(0)), Some(&q(0)));
}

#[test]
fn take_image_without_a_capacity_entry_fails() {
    let mut state = world();
    assert!(state.switch_on(&ins(1), &sat(0)));
    assert!(state.calibrate(&sat(0), &ins(1), &dir(5)));
    state.data_capacity = Table::new();
    assert!(!state.take_image(&sat(0), dir(5), &ins(1), &mode(3)));
    assert!(!SatelliteOperator::TakeImage(sat(0), dir(5), ins(1), mode(3)).lookups_present(&state));
}

#[test]
fn queries_read_the_tables() {
    let state = world();
    assert!(state.does_instrument_support_mode(&ins(11), &mode(4)));
    assert!(!state.does_instrument_support_mode(&ins(1), &mode(4)));
    assert!(!state.does_instrument_support_mode(&ins(99), &mode(4)));
    assert!(state.carries(&sat(0), &ins(2)));
    assert!(!state.carries(&sat(10), &ins(2)));
    assert!(state.pointing_helper(&sat(0), &dir(5)));
    assert!(!state.pointing_helper(&sat(0), &dir(6)));
    assert!(!state.pointing_helper(&sat(99), &dir(6)));
    assert!(state.calibrate_helper(&ins(2), &dir(6)));
    assert!(!state.calibrate_helper(&ins(2), &dir(5)));
    assert_eq!(state.get_satellite_data_used(&dir(6), &mode(4)), q(20));
    assert_eq!(state.get_satellite_data_used(&dir(6), &mode(3)), q(0));
}

#[test]
fn lists_are_searched_and_purged() {
    let mut list = vec![ins(1), ins(2), ins(1), ins(3), ins(1)];
    assert!(list_contains(&list, &ins(3)));
    assert!(!list_contains(&list, &ins(4)));
    remove_all(&mut list, &ins(1));
    assert_eq!(list, vec![ins(2), ins(3)]);
    remove_all(&mut list, &ins(9));
    assert_eq!(list, vec![ins(2), ins(3)]);
    let mut empty: Vec<SatelliteEnum> = vec![];
    remove_all(&mut empty, &ins(1));
    assert!(empty.is_empty());
}

#[test]
fn attempt_update_applies_the_step() {
    let mut state = world();
    let steps = vec![
        SatelliteOperator::SwitchOn(ins(1), sat(0)),
        SatelliteOperator::Calibrate(sat(0), ins(1), dir(5)),
        SatelliteOperator::TakeImage(sat(0), dir(5), ins(1), mode(3)),
        SatelliteOperator::SwitchOff(ins(1), sat(0)),
        SatelliteOperator::TurnTo(sat(0), dir(6), dir(5)),
    ];
    for step in &steps {
        assert!(step.lookups_present(&state));
        assert!(step.attempt_update(&mut state));
    }
    assert_eq!(state.have_image.get(&dir(5)), Some(&mode(3)));
    assert_eq!(state.pointing.get(&sat(0)), Some(&dir(6)));
    let before = state.clone();
    for step in &steps[..4] {
        let mut copy = state.clone();
        let applied = step.attempt_update(&mut copy);
        assert!(applied || copy == before);
    }
    assert!(!steps[4].attempt_update(&mut state));
    assert_eq!(state, before);
}

#[test]
fn every_step_costs_one() {
    let state = world();
    let goal = SatelliteGoals::new(Table::new(), Table::new(), q(0));
    let step = SatelliteOperator::SwitchOn(ins(1), sat(0));
    assert_eq!(step.cost(&state, &goal), Quantity::one());
    assert_eq!(step.clone(), step);
    assert_eq!(SatelliteOperator::<SatelliteEnum>::zero_cost(), Quantity::zero());
}

#[test]
fn goals_are_met_by_images_and_pointing() {
    let mut state = world();
    let mut have_image = Table::new();
    have_image.insert(dir(5), mode(3));
    let mut pointing = Table::new();
    pointing.insert(sat(10), dir(6));
    let goal = SatelliteGoals::new(have_image, pointing, q(0));
    assert!(!goal.all_met_in(&state));
    assert!(!goal.images_met_in(&state));
    assert!(goal.pointings_met_in(&state));
    state.have_image.insert(dir(5), mode(4));
    assert!(!goal.all_met_in(&state));
    state.have_image.insert(dir(5), mode(3));
    assert!(goal.all_met_in(&state));
    state.pointing.insert(sat(10), dir(5));
    assert!(!goal.all_met_in(&state));
    assert!(goal.images_met_in(&state));
    let empty = SatelliteGoals::new(Table::new(), Table::new(), q(0));
    assert!(empty.all_met_in(&state));
}

#[test]
fn a_plan_is_valid_if_it_runs_and_meets_the_goal() {
    let state = world();
    let mut have_image = Table::new();
    have_image.insert(dir(5), mode(3));
    let goal = SatelliteGoals::new(have_image, Table::new(), q(0));
    let steps = vec![
        SatelliteOperator::SwitchOn(ins(1), sat(0)),
        SatelliteOperator::Calibrate(sat(0), ins(1), dir(5)),
        SatelliteOperator::TakeImage(sat(0), dir(5), ins(1), mode(3)),
    ];
    assert!(is_satellite_valid(&steps, &state, &goal));
    assert!(!is_satellite_valid(&steps[..2].to_vec(), &state, &goal));
    assert!(!is_satellite_valid(&steps[1..].to_vec(), &state, &goal));
    assert!(!is_satellite_valid(&vec![], &state, &goal));
    let mut twice = steps.clone();
    twice.push(SatelliteOperator::SwitchOn(ins(2), sat(0)));
    assert!(!is_satellite_valid(&twice, &state, &goal));
    assert_eq!(state, world());
}

#[test]
fn a_step_shows_its_kind_and_its_objects() {
    assert_eq!(
        SatelliteOperator::TurnTo(sat(0), dir(6), dir(5)).as_tuple(),
        (OperatorKind::TurnTo, Some(sat(0)), None, Some(dir(6)), None)
    );
    assert_eq!(
        SatelliteOperator::SwitchOn(ins(1), sat(0)).as_tuple(),
        (OperatorKind::SwitchOn, Some(sat(0)), Some(ins(1)), None, None)
    );
    assert_eq!(
        SatelliteOperator::SwitchOff(ins(1), sat(0)).as_tuple(),
        (OperatorKind::SwitchOff, Some(sat(0)), Some(ins(1)), None, None)
    );
    assert_eq!(
        SatelliteOperator::Calibrate(sat(0), ins(1), dir(5)).as_tuple(),
        (OperatorKind::Calibrate, Some(sat(0)), Some(ins(1)), Some(dir(5)), None)
    );
    assert_eq!(
        SatelliteOperator::TakeImage(sat(0), dir(5), ins(1), mode(3)).as_tuple(),
        (OperatorKind::TakeImage, Some(sat(0)), Some(ins(1)), Some(dir(5)), Some(mode(3)))
    );
}

#[test]
fn the_fuel_decides_whether_a_turn_is_made() {
    let mut state = world();
    assert!(state.turn_to_helper(&sat(0), q(10), &dir(9), &dir(5)));
    assert_eq!(state.pointing.get(&sat(0)), Some(&dir(9)));
    assert_eq!(state.fuel.get(&sat(0)), Some(&q(0)));
    assert_eq!(state.fuel_used, q(10));
    let before = state.clone();
    assert!(!state.turn_to_helper(&sat(0), Quantity::from_bits(1), &dir(5), &dir(9)));
    assert!(!state.turn_to_helper(&sat(99), q(0), &dir(5), &dir(9)));
    assert_eq!(state, before);
    assert!(state.turn_to_helper(&sat(0), q(0), &dir(5), &dir(9)));
    state.set_strips(true);
    assert!(state.turn_to_helper(&sat(99), q(1000), &dir(5), &dir(9)));
    assert_eq!(state.pointing.get(&sat(99)), Some(&dir(5)));
    assert_eq!(state.fuel_used, q(10));
}
