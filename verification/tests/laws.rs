use satellite_planner::laws::{
    calibrated_are_powered, carries_first, power_is_settled_on, powered_are_carried,
    satellites_are_pointed,
};
use satellite_planner::operators::{SatelliteEnum, SatelliteGoals, SatelliteOperator, SatelliteState};
use satellite_planner::planner::plan;
use satellite_planner::quantity::Quantity;
use satellite_planner::table::Table;

fn q(n: u64) -> Quantity {
    Quantity::from_count(n).unwrap()
}

fn sat(n: u64) -> SatelliteEnum {
    SatelliteEnum::Satellite(q(n))
}

fn ins(n: u64) -> SatelliteEnum {
    SatelliteEnum::Instrument(q(n))
}

fn mode(n: u64) -> SatelliteEnum {
    SatelliteEnum::Mode(q(n))
}

fn dir(n: u64) -> SatelliteEnum {
    SatelliteEnum::Direction(q(n))
}

/// Satellites 0 and 1 carry two instruments each (10, 11 and 12, 13).
/// Every instrument supports mode 20 and is calibrated at direction 30.
fn world() -> SatelliteState {
    let mut onboard = Table::new();
    onboard.insert(sat(0), vec![ins(10), ins(11)]);
    onboard.insert(sat(1), vec![ins(12), ins(13)]);
    let mut supports = Table::new();
    let mut calibration_target = Table::new();
    for i in 10..14 {
        supports.insert(ins(i), vec![mode(20)]);
        calibration_target.insert(ins(i), dir(30));
    }
    let mut pointing = Table::new();
    pointing.insert(sat(0), dir(30));
    pointing.insert(sat(1), dir(31));
    let mut power_avail = Table::new();
    power_avail.insert(sat(0), true);
    power_avail.insert(sat(1), true);
    let mut data_capacity = Table::new();
    data_capacity.insert(sat(0), q(100));
    data_capacity.insert(sat(1), q(100));
    let mut slew_time = Table::new();
    for a in 30..33 {
        for b in 30..33 {
            slew_time.insert((dir(a), dir(b)), q(1));
        }
    }
    let mut fuel = Table::new();
    fuel.insert(sat(0), q(100));
    fuel.insert(sat(1), q(100));
    SatelliteState::new(
        onboard,
        supports,
        pointing,
        power_avail,
        vec![],
        vec![],
        Table::new(),
        calibration_target,
        data_capacity,
        q(0),
        Table::new(),
        slew_time,
        q(0),
        fuel,
    )
}

fn powered_per_satellite(state: &SatelliteState) -> Vec<usize> {
    let mut counts = vec![];
    for i in 0..state.onboard.len() {
        let members = state.onboard.value_at(i);
        counts.push(members.iter().filter(|m| state.power_on.contains(m)).count());
    }
    counts
}

#[test]
fn a_fresh_world_is_well_formed() {
    let state = world();
    assert!(state.is_well_formed());
    assert!(satellites_are_pointed(&state));
    assert!(calibrated_are_powered(&state));
    assert!(powered_are_carried(&state));
    assert!(power_is_settled_on(&state, &sat(0)));
    assert!(carries_first(&state, &sat(1)));
    assert!(power_is_settled_on(&state, &sat(9)));
    assert!(carries_first(&state, &sat(9)));
}

#[test]
fn each_flaw_is_found() {
    let mut unpointed = world();
    unpointed.pointing = Table::new();
    assert!(!satellites_are_pointed(&unpointed));
    assert!(!unpointed.is_well_formed());

    let mut cold = world();
    cold.calibrated = vec![ins(10)];
    assert!(!calibrated_are_powered(&cold));
    assert!(!cold.is_well_formed());

    let mut stray = world();
    stray.power_on = vec![ins(99)];
    assert!(!powered_are_carried(&stray));
    assert!(!stray.is_well_formed());

    let mut double = world();
    double.power_on = vec![ins(10), ins(11)];
    double.power_avail.insert(sat(0), false);
    assert!(!power_is_settled_on(&double, &sat(0)));
    assert!(power_is_settled_on(&double, &sat(1)));
    assert!(!double.is_well_formed());

    let mut unpaid = world();
    unpaid.power_on = vec![ins(12)];
    assert!(!power_is_settled_on(&unpaid, &sat(1)));
    assert!(!unpaid.is_well_formed());
    unpaid.power_avail.insert(sat(1), false);
    assert!(unpaid.is_well_formed());

    let mut shared = world();
    shared.onboard.insert(sat(1), vec![ins(12), ins(10)]);
    assert!(carries_first(&shared, &sat(0)));
    assert!(!carries_first(&shared, &sat(1)));
    assert!(!shared.is_well_formed());
}

#[test]
fn steps_keep_a_world_well_formed() {
    let mut state = world();
    let steps = [
        SatelliteOperator::SwitchOn(ins(10), sat(0)),
        SatelliteOperator::SwitchOn(ins(11), sat(0)),
        SatelliteOperator::SwitchOn(ins(13), sat(1)),
        SatelliteOperator::Calibrate(sat(0), ins(10), dir(30)),
        SatelliteOperator::TakeImage(sat(0), dir(30), ins(10), mode(20)),
        SatelliteOperator::TurnTo(sat(1), dir(30), dir(31)),
        SatelliteOperator::Calibrate(sat(1), ins(13), dir(30)),
        SatelliteOperator::SwitchOff(ins(10), sat(0)),
        SatelliteOperator::SwitchOff(ins(10), sat(0)),
        SatelliteOperator::SwitchOn(ins(11), sat(0)),
        SatelliteOperator::SwitchOff(ins(13), sat(1)),
    ];
    let applied: Vec<bool> = steps
        .iter()
        .map(|step| {
            let applied = step.attempt_update(&mut state);
            assert!(state.is_well_formed());
            assert!(powered_per_satellite(&state).iter().all(|count| *count <= 1));
            applied
        })
        .collect();
    assert_eq!(applied, vec![true, false, true, true, true, true, true, true, false, true, true]);
    assert_eq!(state.power_on, vec![ins(11)]);
}

#[test]
fn power_is_exclusive_all_along_a_plan() {
    let start = world();
    let mut have_image = Table::new();
    have_image.insert(dir(30), mode(20));
    have_image.insert(dir(31), mode(20));
    let goal = SatelliteGoals::new(have_image, Table::new(), q(0));
    let steps = plan(&start, &goal).unwrap();
    let mut state = start.clone();
    for step in &steps {
        assert!(step.attempt_update(&mut state));
        assert!(powered_per_satellite(&state).iter().all(|count| *count <= 1));
        assert!(state.is_well_formed());
    }
    assert!(goal.accepts(&state));
}

#[test]
fn power_exclusivity_needs_a_well_formed_start() {
    let mut start = world();
    start.power_on = vec![ins(10)];
    assert!(!start.is_well_formed());
    assert!(SatelliteOperator::SwitchOn(ins(11), sat(0)).attempt_update(&mut start));
    assert_eq!(powered_per_satellite(&start), vec![2, 0]);
}

#[test]
fn a_switch_takes_the_calibration_until_the_next_calibration() {
    let mut state = world();
    assert!(state.switch_on(&ins(10), &sat(0)));
    assert!(state.calibrate(&sat(0), &ins(10), &dir(30)));
    assert!(state.calibrated.contains(&ins(10)));
    assert!(state.switch_off(&ins(10), &sat(0)));
    assert!(!state.calibrated.contains(&ins(10)));
    let later = [
        SatelliteOperator::SwitchOn(ins(10), sat(0)),
        SatelliteOperator::TurnTo(sat(0), dir(31), dir(30)),
        SatelliteOperator::SwitchOn(ins(12), sat(1)),
        SatelliteOperator::TurnTo(sat(1), dir(30), dir(31)),
        SatelliteOperator::Calibrate(sat(1), ins(12), dir(30)),
        SatelliteOperator::TakeImage(sat(1), dir(30), ins(12), mode(20)),
        SatelliteOperator::TurnTo(sat(0), dir(30), dir(31)),
    ];
    for step in &later {
        assert!(step.attempt_update(&mut state));
        assert!(!state.calibrated.contains(&ins(10)));
    }
    assert!(!state.take_image(&sat(0), dir(30), &ins(10), &mode(20)));
    assert!(state.calibrate(&sat(0), &ins(10), &dir(30)));
    assert!(state.calibrated.contains(&ins(10)));
    assert!(state.take_image(&sat(0), dir(30), &ins(10), &mode(20)));
}
